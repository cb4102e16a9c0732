//! The RTMP client session, as the publisher sees it.
//!
//! The session itself is `rml_rtmp`'s. A value of it is opaque here: what a call does is said by a
//! relation between the session before, the arguments, the answer and the session after. Most
//! answers also depend on the clock, so the relations are not functions. How far the session has
//! come, and with it whether a request is granted, is said apart, and so is what it holds of the
//! bytes that it was handed, which only `handle_input` changes, and how often it was asked for a
//! connection or a stream, which it counts.
use crate::error::PublishError;
use crate::intake::{can_take, has_taken, nothing_inbound, Inbound};
use rml_rtmp::messages::MessagePayload;
use rml_rtmp::sessions::{
    ClientSession, ClientSessionConfig, ClientSessionError, ClientSessionEvent,
    ClientSessionResult, PublishRequestType, StreamMetadata,
};
use rml_rtmp::time::RtmpTimestamp;
use std::collections::VecDeque;
use vstd::prelude::*;
use vstd::utf8::encode_utf8;

verus! {

/// The client side of one RTMP connection.
#[verifier::external_type_specification]
#[verifier::external_body]
pub struct ExClientSession(ClientSession);

/// One answer of the session, before it is sorted by kind.
#[verifier::external_type_specification]
#[verifier::external_body]
pub struct ExClientSessionResult(ClientSessionResult);

/// An event of the session that the publisher does not act on.
#[verifier::external_type_specification]
#[verifier::external_body]
pub struct ExClientSessionEvent(ClientSessionEvent);

/// A message that the session could not handle.
#[verifier::external_type_specification]
#[verifier::external_body]
pub struct ExMessagePayload(MessagePayload);

/// An event that the session raises.
#[derive(Debug)]
pub enum SessionEvent {
    /// The server accepted the connection request.
    ConnectionRequestAccepted,
    /// The server turned the connection request down.
    ConnectionRequestRejected { description: String },
    /// The server accepted the request to publish.
    PublishRequestAccepted,
    /// Anything else.
    Other(ClientSessionEvent),
}

/// One answer of the session to a request or to bytes from the server.
#[derive(Debug)]
pub enum SessionResult {
    /// A packet that has to be sent to the server.
    OutboundResponse(Vec<u8>),
    /// An event for the publisher.
    RaisedEvent(SessionEvent),
    /// A message that the session could not handle.
    UnhandleableMessageReceived(MessagePayload),
}

/// What a published stream is for.
#[derive(Clone, Copy, Debug, PartialEq, Eq, Structural)]
pub enum PublishMode {
    /// The stream is sent out and not recorded.
    Live,
    /// The stream is recorded to a new file.
    Record,
    /// The stream is appended to a file.
    Append,
}

/// How far a session has come that was made with the default configuration, but for the chunk size.
#[derive(Clone, Copy, Debug, PartialEq, Eq, Structural)]
pub enum SessionState {
    /// It is not connected, and the server owes it no answer.
    Idle,
    /// It is not connected, and the server owes it the answer to one connection request.
    Connecting,
    /// It is connected, and the server owes it no answer.
    Connected,
    /// It is connected, and the server has yet to grant it one stream.
    Requesting,
    /// The server has granted it a stream, and owes it no answer.
    Publishing,
    /// Anything else, such as a connection that was asked for twice.
    Other,
}

/// What the session answers to one request.
pub type Answer = Result<ClientSessionResult, ClientSessionError>;

/// What the session answers to bytes from the server, or to the end of the stream.
pub type Answers = Result<Vec<ClientSessionResult>, ClientSessionError>;

/// The kind of an answer and what it carries.
pub uninterp spec fn result_content(raw: ClientSessionResult) -> SessionResult;

/// How far a session has come.
pub uninterp spec fn state_of(session: ClientSession) -> SessionState;

/// What a session holds of the bytes that it was handed.
pub uninterp spec fn inbound_of(session: ClientSession) -> Inbound;

/// How many requests for a connection or a stream a session has counted.
pub uninterp spec fn requests_of(session: ClientSession) -> nat;

/// `ClientSession::new` with `chunk_size` in its configuration may give this session.
pub uninterp spec fn session_created(chunk_size: u32, session: ClientSession) -> bool;

/// `ClientSession::handle_input` with these bytes may give this outcome.
pub uninterp spec fn input_handled(
    before: ClientSession,
    bytes: Seq<u8>,
    outcome: Answers,
    after: ClientSession,
) -> bool;

/// `ClientSession::request_connection` to this application may give this outcome.
pub uninterp spec fn connection_requested(
    before: ClientSession,
    app_name: Seq<char>,
    outcome: Answer,
    after: ClientSession,
) -> bool;

/// `ClientSession::request_publishing` on this stream key may give this outcome.
pub uninterp spec fn publishing_requested(
    before: ClientSession,
    stream_key: Seq<char>,
    mode: PublishMode,
    outcome: Answer,
    after: ClientSession,
) -> bool;

/// `ClientSession::publish_metadata` with empty metadata may give this outcome.
pub uninterp spec fn metadata_published(
    before: ClientSession,
    outcome: Answer,
    after: ClientSession,
) -> bool;

/// `ClientSession::publish_video_data` with these arguments may give this outcome.
pub uninterp spec fn video_published(
    before: ClientSession,
    data: Seq<u8>,
    timestamp: u32,
    can_be_dropped: bool,
    outcome: Answer,
    after: ClientSession,
) -> bool;

/// `ClientSession::publish_audio_data` with these arguments may give this outcome.
pub uninterp spec fn audio_published(
    before: ClientSession,
    data: Seq<u8>,
    timestamp: u32,
    can_be_dropped: bool,
    outcome: Answer,
    after: ClientSession,
) -> bool;

/// `ClientSession::stop_publishing` may give this outcome.
pub uninterp spec fn publishing_stopped(
    before: ClientSession,
    outcome: Answers,
    after: ClientSession,
) -> bool;

/// The longest message that the session can send.
pub const MAX_MESSAGE_LEN: usize = 16777215;

/// How many requests for a connection or a stream a session can count.
pub const MAX_REQUESTS: u32 = 0xffff_fffe;

/// The longest application name that a connection request can carry, in bytes.
pub const MAX_NAME_LEN: usize = 65535;

/// The kinds of a whole list of answers, in order.
pub open spec fn contents(raw: Seq<ClientSessionResult>) -> Seq<SessionResult> {
    raw.map_values(|r: ClientSessionResult| result_content(r))
}

/// Whether the server accepted the connection request, by these results.
pub open spec fn accepts_connection(results: Seq<SessionResult>) -> bool {
    exists|i: int|
        0 <= i < results.len() && (#[trigger] results[i] matches SessionResult::RaisedEvent(event)
            && event is ConnectionRequestAccepted)
}

/// Whether the server turned the connection request down, by these results.
pub open spec fn rejects_connection(results: Seq<SessionResult>) -> bool {
    exists|i: int|
        0 <= i < results.len() && (#[trigger] results[i] matches SessionResult::RaisedEvent(event)
            && event is ConnectionRequestRejected)
}

/// Whether the server granted the stream, by these results.
pub open spec fn grants_stream(results: Seq<SessionResult>) -> bool {
    exists|i: int|
        0 <= i < results.len() && (#[trigger] results[i] matches SessionResult::RaisedEvent(event)
            && event is PublishRequestAccepted)
}

/// How far a session has come after the server sent what these results came of. Only the answer to
/// what was asked takes it further.
pub open spec fn state_after_input(
    state: SessionState,
    results: Seq<SessionResult>,
) -> SessionState {
    match state {
        SessionState::Connecting => if accepts_connection(results) {
            SessionState::Connected
        } else if rejects_connection(results) {
            SessionState::Idle
        } else {
            SessionState::Connecting
        },
        SessionState::Requesting => if grants_stream(results) {
            SessionState::Publishing
        } else {
            SessionState::Requesting
        },
        _ => state,
    }
}

/// Whether a session is connected.
pub open spec fn is_connected(state: SessionState) -> bool {
    state == SessionState::Connected || state == SessionState::Requesting || state
        == SessionState::Publishing
}

/// Whether a session is in no position to ask for a stream.
pub open spec fn refuses_stream(state: SessionState) -> bool {
    state == SessionState::Idle || state == SessionState::Connecting || state
        == SessionState::Publishing
}

/// Whether a session has not asked for a stream.
pub open spec fn asked_for_no_stream(state: SessionState) -> bool {
    state == SessionState::Idle || state == SessionState::Connecting || state
        == SessionState::Connected
}

/// Whether nothing that the server sends can change how far a session has come, because the server
/// owes it no answer.
pub open spec fn is_settled(state: SessionState) -> bool {
    state == SessionState::Idle || state == SessionState::Connected || state
        == SessionState::Publishing
}

/// Whether a request, where the session grants it, is answered by one packet for the server.
pub open spec fn answers_with_packet(outcome: Answer) -> bool {
    outcome matches Ok(raw) ==> result_content(raw) is OutboundResponse
}

/// Sorts one answer of the session by its kind. The outside enums `ClientSessionResult` and
/// `ClientSessionEvent` are read variant by variant: the bytes of a packet, the three events that
/// the publisher acts on, and everything else carried along whole. The contract claims that the
/// same answer always reads the same.
#[verifier::external_body]
pub(crate) fn session_result(raw: ClientSessionResult) -> (result: SessionResult)
    ensures
        result == result_content(raw),
{
    match raw {
        ClientSessionResult::OutboundResponse(packet) => SessionResult::OutboundResponse(packet.bytes),
        ClientSessionResult::RaisedEvent(event) => SessionResult::RaisedEvent(match event {
            ClientSessionEvent::ConnectionRequestAccepted => SessionEvent::ConnectionRequestAccepted,
            ClientSessionEvent::ConnectionRequestRejected { description } =>
                SessionEvent::ConnectionRequestRejected { description },
            ClientSessionEvent::PublishRequestAccepted => SessionEvent::PublishRequestAccepted,
            other => SessionEvent::Other(other),
        }),
        ClientSessionResult::UnhandleableMessageReceived(message) =>
            SessionResult::UnhandleableMessageReceived(message),
    }
}

/// Calls `ClientSession::new` with the default configuration, but for the chunk size. The contract
/// claims that it always succeeds and answers nothing yet: the session keeps the configuration and
/// takes the time, is idle, and holds no bytes.
/// A chunk size of zero would keep later calls from returning, and the session refuses one that
/// does not fit in 31 bits when it connects.
#[verifier::external_body]
pub(crate) fn new_session(chunk_size: u32) -> (outcome: Result<
    (ClientSession, Vec<ClientSessionResult>),
    ClientSessionError,
>)
    requires
        0 < chunk_size <= 0x7fff_ffff,
    ensures
        outcome is Ok,
        session_created(chunk_size, outcome->Ok_0.0),
        state_of(outcome->Ok_0.0) == SessionState::Idle,
        inbound_of(outcome->Ok_0.0) == nothing_inbound(),
        requests_of(outcome->Ok_0.0) == 0,
        outcome->Ok_0.1@.len() == 0,
{
    let mut config = ClientSessionConfig::new();
    config.chunk_size = chunk_size;
    ClientSession::new(config)
}

/// Calls `ClientSession::handle_input`. The contract claims that the outcome is one that the call
/// can have on this session and these bytes. It does not say which: that takes the RTMP protocol
/// and the clock. It claims that the session gets further only by an answer that it was owed, and
/// then raises the event that says so. It does not say how far a session is that was owed an answer
/// when the call fails. The bytes have to be such that the session can take them: the call panics
/// on a message that is made shorter than what has come of it, on a timestamp that is too small for
/// its four bytes, on a command of fewer than three values, on values that are nested too deep for
/// the stack, and where it counts bytes beyond 32 or 64 bits. It holds the bytes afterwards,
/// also where it fails: a message that it refuses is gone, and those behind it wait for the next
/// call. Where it succeeds, no message waits.
#[verifier::external_body]
pub(crate) fn handle_input(session: &mut ClientSession, bytes: &[u8]) -> (outcome: Answers)
    requires
        can_take(inbound_of(*old(session)), bytes@),
    ensures
        input_handled(*old(session), bytes@, outcome, *final(session)),
        has_taken(inbound_of(*old(session)), bytes@, outcome is Ok, inbound_of(*final(session))),
        requests_of(*final(session)) == requests_of(*old(session)),
        is_settled(state_of(*old(session))) ==> state_of(*final(session)) == state_of(
            *old(session),
        ),
        state_of(*old(session)) != SessionState::Other && outcome is Ok ==> state_of(
            *final(session),
        ) == state_after_input(state_of(*old(session)), contents(outcome->Ok_0@)),
{
    session.handle_input(bytes)
}

/// Calls `ClientSession::request_connection`. The contract claims that the outcome is one that the
/// call can have with this application name, and that a granted request is one packet. An idle
/// session grants the request unless the name is too long for it; one that is connected refuses. The
/// session counts the requests with 32 bits, and beyond them the call may panic.
#[verifier::external_body]
pub(crate) fn request_connection(session: &mut ClientSession, app_name: String) -> (outcome: Answer)
    requires
        requests_of(*old(session)) < MAX_REQUESTS,
    ensures
        connection_requested(*old(session), app_name@, outcome, *final(session)),
        inbound_of(*final(session)) == inbound_of(*old(session)),
        requests_of(*final(session)) <= requests_of(*old(session)) + 1,
        answers_with_packet(outcome),
        state_of(*old(session)) == SessionState::Idle ==> (outcome is Ok <==> encode_utf8(
            app_name@,
        ).len() <= MAX_NAME_LEN),
        state_of(*old(session)) == SessionState::Idle && outcome is Ok ==> state_of(*final(session))
            == SessionState::Connecting,
        is_connected(state_of(*old(session))) ==> outcome is Err && state_of(*final(session))
            == state_of(*old(session)),
{
    session.request_connection(app_name)
}

/// Calls `ClientSession::request_publishing`. The contract claims that the outcome is one that the
/// call can have with this stream key and mode, and that a granted request is one packet. A session
/// that is just connected grants the request; one that is not connected, or publishes already,
/// refuses. The session counts the requests with 32 bits, and beyond them the call may panic.
#[verifier::external_body]
pub(crate) fn request_publishing(
    session: &mut ClientSession,
    stream_key: String,
    mode: PublishMode,
) -> (outcome: Answer)
    requires
        requests_of(*old(session)) < MAX_REQUESTS,
    ensures
        publishing_requested(*old(session), stream_key@, mode, outcome, *final(session)),
        inbound_of(*final(session)) == inbound_of(*old(session)),
        requests_of(*final(session)) <= requests_of(*old(session)) + 1,
        answers_with_packet(outcome),
        state_of(*old(session)) == SessionState::Connected ==> outcome is Ok && state_of(
            *final(session),
        ) == SessionState::Requesting,
        refuses_stream(state_of(*old(session))) ==> outcome is Err && state_of(*final(session))
            == state_of(*old(session)),
{
    let publish_type = match mode {
        PublishMode::Live => PublishRequestType::Live,
        PublishMode::Record => PublishRequestType::Record,
        PublishMode::Append => PublishRequestType::Append,
    };
    session.request_publishing(stream_key, publish_type)
}

/// Calls `ClientSession::publish_metadata` with the empty `StreamMetadata`. The contract claims
/// that the outcome is one that the call can have, that a granted request is one packet, and that
/// it is granted where the session publishes.
#[verifier::external_body]
pub(crate) fn publish_metadata(session: &mut ClientSession) -> (outcome: Answer)
    ensures
        metadata_published(*old(session), outcome, *final(session)),
        inbound_of(*final(session)) == inbound_of(*old(session)),
        requests_of(*final(session)) == requests_of(*old(session)),
        answers_with_packet(outcome),
        state_of(*final(session)) == state_of(*old(session)),
        state_of(*old(session)) != SessionState::Other ==> (outcome is Ok <==> state_of(
            *old(session),
        ) == SessionState::Publishing),
{
    session.publish_metadata(&StreamMetadata::new())
}

/// Calls `ClientSession::publish_video_data`. The contract claims that the outcome is one that the
/// call can have with these arguments, that a granted request is one packet, and that it is granted
/// where the session publishes and one message can hold the data.
#[verifier::external_body]
pub(crate) fn publish_video_data(
    session: &mut ClientSession,
    data: Vec<u8>,
    timestamp: u32,
    can_be_dropped: bool,
) -> (outcome: Answer)
    ensures
        video_published(
            *old(session),
            data@,
            timestamp,
            can_be_dropped,
            outcome,
            *final(session),
        ),
        answers_with_packet(outcome),
        inbound_of(*final(session)) == inbound_of(*old(session)),
        requests_of(*final(session)) == requests_of(*old(session)),
        state_of(*final(session)) == state_of(*old(session)),
        data@.len() > MAX_MESSAGE_LEN ==> outcome is Err,
        state_of(*old(session)) != SessionState::Other ==> (outcome is Ok <==> state_of(
            *old(session),
        ) == SessionState::Publishing && data@.len() <= MAX_MESSAGE_LEN),
{
    session.publish_video_data(data.into(), RtmpTimestamp::new(timestamp), can_be_dropped)
}

/// Calls `ClientSession::publish_audio_data`. The contract claims that the outcome is one that the
/// call can have with these arguments, that a granted request is one packet, and that it is granted
/// where the session publishes and one message can hold the data.
#[verifier::external_body]
pub(crate) fn publish_audio_data(
    session: &mut ClientSession,
    data: Vec<u8>,
    timestamp: u32,
    can_be_dropped: bool,
) -> (outcome: Answer)
    ensures
        audio_published(
            *old(session),
            data@,
            timestamp,
            can_be_dropped,
            outcome,
            *final(session),
        ),
        answers_with_packet(outcome),
        inbound_of(*final(session)) == inbound_of(*old(session)),
        requests_of(*final(session)) == requests_of(*old(session)),
        state_of(*final(session)) == state_of(*old(session)),
        data@.len() > MAX_MESSAGE_LEN ==> outcome is Err,
        state_of(*old(session)) != SessionState::Other ==> (outcome is Ok <==> state_of(
            *old(session),
        ) == SessionState::Publishing && data@.len() <= MAX_MESSAGE_LEN),
{
    session.publish_audio_data(data.into(), RtmpTimestamp::new(timestamp), can_be_dropped)
}

/// Calls `ClientSession::stop_publishing`. The contract claims that the outcome is one that the
/// call can have, and that the call always succeeds and answers with at most one packet and nothing
/// else: one if the session publishes, none if it is not connected or has asked for no stream.
#[verifier::external_body]
pub(crate) fn stop_publishing(session: &mut ClientSession) -> (outcome: Answers)
    ensures
        publishing_stopped(*old(session), outcome, *final(session)),
        inbound_of(*final(session)) == inbound_of(*old(session)),
        requests_of(*final(session)) == requests_of(*old(session)),
        outcome is Ok,
        outcome->Ok_0@.len() <= 1,
        forall|i: int|
            0 <= i < outcome->Ok_0@.len() ==> result_content(
                #[trigger] outcome->Ok_0@[i],
            ) is OutboundResponse,
        state_of(*old(session)) == SessionState::Publishing ==> outcome->Ok_0@.len() == 1
            && state_of(*final(session)) == SessionState::Connected,
        asked_for_no_stream(state_of(*old(session))) ==> outcome->Ok_0@.len() == 0 && state_of(
            *final(session),
        ) == state_of(*old(session)),
{
    session.stop_publishing()
}

/// What a request comes to, given what the session answered: the one result to act on, or the
/// error of the session.
pub open spec fn is_reply(
    answer: Answer,
    reply: Result<VecDeque<SessionResult>, PublishError>,
) -> bool {
    match answer {
        Ok(raw) => reply matches Ok(actions) && actions@ == seq![result_content(raw)],
        Err(error) => reply == Err::<VecDeque<SessionResult>, PublishError>(
            PublishError::Session(error),
        ),
    }
}

/// The same for a call that answers with a list.
pub open spec fn is_reply_list(
    answers: Answers,
    reply: Result<VecDeque<SessionResult>, PublishError>,
) -> bool {
    match answers {
        Ok(raw) => reply matches Ok(actions) && actions@ == contents(raw@),
        Err(error) => reply == Err::<VecDeque<SessionResult>, PublishError>(
            PublishError::Session(error),
        ),
    }
}

/// Turns the answer to one request into the actions that it asks for.
pub fn reply(answer: Answer) -> (reply: Result<VecDeque<SessionResult>, PublishError>)
    ensures
        is_reply(answer, reply),
{
    match answer {
        Ok(raw) => {
            let mut actions: VecDeque<SessionResult> = VecDeque::new();
            actions.push_back(session_result(raw));
            assert(actions@ =~= seq![result_content(raw)]);
            Ok(actions)
        },
        Err(error) => Err(PublishError::Session(error)),
    }
}

/// Turns a list of answers into the actions that they ask for, in order.
pub fn reply_list(answers: Answers) -> (reply: Result<VecDeque<SessionResult>, PublishError>)
    ensures
        is_reply_list(answers, reply),
{
    match answers {
        Ok(results) => {
            let ghost raw = results@;
            let mut actions: VecDeque<SessionResult> = VecDeque::new();
            for result in it: results
                invariant
                    it.seq() == raw,
                    actions@ == contents(raw.take(it.index() as int)),
            {
                actions.push_back(session_result(result));
                assert(actions@ =~= contents(raw.take(it.index() + 1)));
            }
            assert(raw.take(raw.len() as int) =~= raw);
            Ok(actions)
        },
        Err(error) => Err(PublishError::Session(error)),
    }
}

/// What is made of the answer to a request is that one result, or the session's own error, and
/// nothing else.
pub proof fn law_reply_is_the_answer(
    answer: Answer,
    reply: Result<VecDeque<SessionResult>, PublishError>,
)
    requires
        is_reply(answer, reply),
    ensures
        answer is Ok <==> reply is Ok,
        answer matches Err(error) ==> reply->Err_0 == PublishError::Session(error),
        answer matches Ok(raw) ==> reply->Ok_0@.len() == 1 && reply->Ok_0@[0] == result_content(raw),
{
}

/// What is made of a list of answers is every one of them, in order, or the session's own error.
pub proof fn law_reply_list_is_every_answer(
    answers: Answers,
    reply: Result<VecDeque<SessionResult>, PublishError>,
)
    requires
        is_reply_list(answers, reply),
    ensures
        answers is Ok <==> reply is Ok,
        answers matches Err(error) ==> reply->Err_0 == PublishError::Session(error),
        answers matches Ok(raw) ==> reply->Ok_0@.len() == raw@.len() && forall|i: int|
            0 <= i < raw@.len() ==> #[trigger] reply->Ok_0@[i] == result_content(raw@[i]),
{
}

/// A session that was asked for a connection is connected if the acceptance is among the results,
/// and asks no more if only the refusal is; one that was asked for a stream publishes if the grant
/// is among them. Nothing else changes how far a session has come.
pub proof fn law_only_the_answer_leads_on(state: SessionState, results: Seq<SessionResult>, i: int)
    requires
        0 <= i < results.len(),
    ensures
        state == SessionState::Connecting && results[i] == SessionResult::RaisedEvent(
            SessionEvent::ConnectionRequestAccepted,
        ) ==> state_after_input(state, results) == SessionState::Connected,
        state == SessionState::Requesting && results[i] == SessionResult::RaisedEvent(
            SessionEvent::PublishRequestAccepted,
        ) ==> state_after_input(state, results) == SessionState::Publishing,
        state != SessionState::Connecting && state != SessionState::Requesting
            ==> state_after_input(state, results) == state,
        (forall|j: int| 0 <= j < results.len() ==> !(#[trigger] results[j] is RaisedEvent))
            ==> state_after_input(state, results) == state,
{
    assert(results[i] is RaisedEvent || !(results[i] is RaisedEvent));
}

} // verus!
