//! The publisher: what is asked of the RTMP session, in what order, and what is done with its
//! answers.
//!
//! The publisher does no I/O of its own. Its caller hands in what arrives from the server and from
//! the file, and sends the packets that come back.
use crate::chunks::PartView;
use crate::error::PublishError;
use crate::flv::{TagHeader, TagType};
use crate::flv_reader::{law_when_a_tag_fits_a_message, tag_at, TAG_PREFIX_LEN};
use crate::intake::{
    account_after, accounts_for, admits, law_account_stays_true, law_other_messages_are_admitted,
    nothing_taken, Intake, IntakeView,
};
use crate::pacing::{rtmp_timestamp, TimedTag};
use crate::session::{
    asked_for_no_stream, audio_published, connection_requested, contents, grants_stream,
    handle_input, inbound_of, input_handled, is_connected, is_reply, is_reply_list, is_settled,
    metadata_published, new_session, publish_audio_data, publish_metadata, publish_video_data,
    publishing_requested, publishing_stopped, refuses_stream, reply, reply_list,
    request_connection, request_publishing, requests_of, session_created, state_after_input,
    state_of, stop_publishing, video_published, Answer, Answers, PublishMode, SessionEvent,
    SessionResult, SessionState, MAX_MESSAGE_LEN, MAX_NAME_LEN, MAX_REQUESTS,
};
use rml_rtmp::sessions::ClientSession;
use std::collections::VecDeque;
use vstd::prelude::*;
use vstd::utf8::encode_utf8;

verus! {

/// The size of the chunks that the session cuts its messages into.
pub const CHUNK_SIZE: u32 = 8 * 65536;

/// How far publishing has come.
#[derive(Clone, Copy, Debug, PartialEq, Eq, Structural)]
pub enum Phase {
    /// Nothing has been asked of the server yet.
    Created,
    /// The connection was requested, and the answer is awaited.
    AwaitingConnection,
    /// The stream was requested, and the answer is awaited.
    AwaitingPublish,
    /// Tags are being sent.
    Streaming,
    /// The stream has ended.
    Finished,
}

/// What an event of the session leads to.
#[derive(Clone, Copy, Debug, PartialEq, Eq, Structural)]
pub enum Step {
    /// Ask for the stream.
    RequestPublishing,
    /// Send the metadata; tags may follow.
    PublishMetadata,
    /// Nothing.
    Ignore,
}

/// A tag in the form in which it goes to the session.
#[derive(Debug)]
pub enum MediaMessage {
    Video { data: Vec<u8>, timestamp: u32, can_be_dropped: bool },
    Audio { data: Vec<u8>, timestamp: u32, can_be_dropped: bool },
}

/// A message that a tag is sent as, as mathematical values.
pub struct MessageView {
    pub tag_type: TagType,
    pub data: Seq<u8>,
    pub timestamp: u32,
    pub can_be_dropped: bool,
}

impl View for MediaMessage {
    type V = MessageView;

    open spec fn view(&self) -> MessageView {
        match self {
            MediaMessage::Video { data, timestamp, can_be_dropped } => MessageView {
                tag_type: TagType::Video,
                data: data@,
                timestamp: *timestamp,
                can_be_dropped: *can_be_dropped,
            },
            MediaMessage::Audio { data, timestamp, can_be_dropped } => MessageView {
                tag_type: TagType::Audio,
                data: data@,
                timestamp: *timestamp,
                can_be_dropped: *can_be_dropped,
            },
        }
    }
}

/// What to do next while an event is awaited.
#[derive(Debug)]
pub enum Wait {
    /// This event is the one.
    Event(SessionEvent),
    /// There is none: bytes from the server are needed.
    Receive,
}

/// What to do next with the publisher as a whole.
#[derive(Clone, Copy, Debug, PartialEq, Eq, Structural)]
pub enum Next {
    /// Ask for the connection.
    RequestConnection,
    /// Wait for an event of the session and react to it.
    AwaitEvent,
    /// Wait for a tag of the file or an event of the session, whichever comes first.
    AwaitTagOrEvent,
    /// Nothing: publishing is over.
    Done,
}

/// What to do next in a phase.
pub open spec fn next_in(phase: Phase) -> Next {
    match phase {
        Phase::Created => Next::RequestConnection,
        Phase::AwaitingConnection => Next::AwaitEvent,
        Phase::AwaitingPublish => Next::AwaitEvent,
        Phase::Streaming => Next::AwaitTagOrEvent,
        Phase::Finished => Next::Done,
    }
}

/// What an event leads to in a phase. While an answer is awaited, only the answer asked for leads
/// on and any other event is an error; otherwise events are ignored.
pub open spec fn reaction(phase: Phase, event: SessionEvent) -> Result<Step, PublishError> {
    match phase {
        Phase::AwaitingConnection => match event {
            SessionEvent::ConnectionRequestAccepted => Ok(Step::RequestPublishing),
            SessionEvent::ConnectionRequestRejected { description } => Err(
                PublishError::ConnectionRejected { description },
            ),
            _ => Err(PublishError::UnexpectedEvent),
        },
        Phase::AwaitingPublish => match event {
            SessionEvent::PublishRequestAccepted => Ok(Step::PublishMetadata),
            _ => Err(PublishError::UnexpectedEvent),
        },
        _ => Ok(Step::Ignore),
    }
}

/// The phase that a step leads to.
pub open spec fn phase_after(phase: Phase, step: Step) -> Phase {
    match step {
        Step::RequestPublishing => Phase::AwaitingPublish,
        Step::PublishMetadata => Phase::Streaming,
        Step::Ignore => phase,
    }
}

/// The message that a tag is sent as: its bytes at its time, not to be dropped. Tags that are
/// neither video nor audio are not sent.
pub open spec fn media_message_of(tag: TimedTag) -> Option<MediaMessage> {
    let timestamp = (tag.offset_ms % 0x1_0000_0000) as u32;
    match tag.header.tag_type {
        TagType::Video => Some(
            MediaMessage::Video { data: tag.data, timestamp, can_be_dropped: false },
        ),
        TagType::Audio => Some(
            MediaMessage::Audio { data: tag.data, timestamp, can_be_dropped: false },
        ),
        TagType::Script => None,
    }
}

/// Whether a session that has come so far takes a tag: it has to publish, and the tag to fit in one
/// message. A tag that is not sent is fine at any time.
pub open spec fn tag_accepted(state: SessionState, tag: TimedTag) -> bool {
    media_message_of(tag) is None || (state == SessionState::Publishing && tag.data@.len()
        <= MAX_MESSAGE_LEN)
}

/// The events among a list of session results, in order.
pub open spec fn raised(results: Seq<SessionResult>) -> Seq<SessionEvent>
    decreases results.len(),
{
    if results.len() == 0 {
        Seq::empty()
    } else {
        match results.last() {
            SessionResult::RaisedEvent(event) => raised(results.drop_last()).push(event),
            _ => raised(results.drop_last()),
        }
    }
}

/// The packets among a list of session results, in order.
pub open spec fn packets(results: Seq<SessionResult>) -> Seq<Seq<u8>>
    decreases results.len(),
{
    if results.len() == 0 {
        Seq::empty()
    } else {
        match results.last() {
            SessionResult::OutboundResponse(packet) => packets(results.drop_last()).push(packet@),
            _ => packets(results.drop_last()),
        }
    }
}

/// Where the first packet among the results is, or their number if there is none.
pub open spec fn first_packet(results: Seq<SessionResult>) -> int
    decreases results.len(),
{
    if results.len() == 0 {
        0
    } else if results[0] is OutboundResponse {
        0
    } else {
        1 + first_packet(results.skip(1))
    }
}

/// Decides what an event leads to.
pub fn react(phase: Phase, event: SessionEvent) -> (step: Result<Step, PublishError>)
    ensures
        step == reaction(phase, event),
{
    match phase {
        Phase::AwaitingConnection => match event {
            SessionEvent::ConnectionRequestAccepted => Ok(Step::RequestPublishing),
            SessionEvent::ConnectionRequestRejected { description } => Err(
                PublishError::ConnectionRejected { description },
            ),
            _ => Err(PublishError::UnexpectedEvent),
        },
        Phase::AwaitingPublish => match event {
            SessionEvent::PublishRequestAccepted => Ok(Step::PublishMetadata),
            _ => Err(PublishError::UnexpectedEvent),
        },
        Phase::Created | Phase::Streaming | Phase::Finished => Ok(Step::Ignore),
    }
}

/// Decides how a tag is sent.
pub fn media_message(tag: TimedTag) -> (message: Option<MediaMessage>)
    ensures
        message == media_message_of(tag),
{
    let timestamp = rtmp_timestamp(tag.offset_ms);
    match tag.header.tag_type {
        TagType::Video => Some(
            MediaMessage::Video { data: tag.data, timestamp, can_be_dropped: false },
        ),
        TagType::Audio => Some(
            MediaMessage::Audio { data: tag.data, timestamp, can_be_dropped: false },
        ),
        TagType::Script => None,
    }
}

/// Works the results off from the front, up to and with the first packet, which is returned and
/// has to be sent before the next call. Events go to the end of the queue; messages that the
/// session could not handle are left aside. `None` says that no packet was left.
pub fn handle_session_results(
    events: &mut VecDeque<SessionEvent>,
    actions: &mut VecDeque<SessionResult>,
) -> (packet: Option<Vec<u8>>)
    ensures
        final(events)@ == old(events)@ + raised(old(actions)@.take(first_packet(old(actions)@))),
        first_packet(old(actions)@) < old(actions)@.len() ==> {
            &&& packet matches Some(bytes)
            &&& old(actions)@[first_packet(old(actions)@)] == SessionResult::OutboundResponse(bytes)
            &&& final(actions)@ == old(actions)@.skip(first_packet(old(actions)@) + 1)
        },
        first_packet(old(actions)@) >= old(actions)@.len() ==> packet is None
            && final(actions)@.len() == 0,
{
    let ghost all = actions@;
    let ghost mut done: int = 0;
    loop
        invariant
            all == old(actions)@,
            0 <= done <= all.len(),
            actions@ == all.skip(done),
            events@ == old(events)@ + raised(all.take(done)),
            first_packet(all) == done + first_packet(all.skip(done)),
        decreases actions@.len(),
    {
        match actions.pop_front() {
            None => {
                return None;
            },
            Some(SessionResult::OutboundResponse(bytes)) => {
                assert(all.skip(done).skip(1) =~= all.skip(done + 1));
                return Some(bytes);
            },
            Some(SessionResult::RaisedEvent(event)) => {
                events.push_back(event);
            },
            Some(SessionResult::UnhandleableMessageReceived(_)) => {},
        }
        proof {
            assert(all.take(done + 1).drop_last() =~= all.take(done));
            assert(all.skip(done).skip(1) =~= all.skip(done + 1));
            done = done + 1;
        }
    }
}

/// The publishing side of one connection.
pub struct Publisher {
    session: ClientSession,
    intake: Option<Intake>,
    requests: u32,
    events: VecDeque<SessionEvent>,
    phase: Phase,
    app_name: String,
    stream_key: String,
}

impl Publisher {
    /// The RTMP session.
    pub closed spec fn session(&self) -> ClientSession {
        self.session
    }

    /// How far the session has come.
    pub open spec fn state(&self) -> SessionState {
        state_of(self.session())
    }

    /// The account of what the session was handed. There is none any more once the server has sent
    /// what the session cannot take.
    pub closed spec fn intake(&self) -> Option<IntakeView> {
        match self.intake {
            Some(intake) => Some(intake@),
            None => None,
        }
    }

    /// Whether the account can be gone on with.
    pub closed spec fn intake_valid(&self) -> bool {
        self.intake matches Some(intake) ==> intake.valid()
    }

    /// How often the session was asked for a connection or a stream.
    pub closed spec fn requests(&self) -> u32 {
        self.requests
    }

    /// What is always so: the account is true of the session, and it was asked no more often than
    /// counted.
    pub open spec fn valid(&self) -> bool {
        &&& self.intake_valid()
        &&& requests_of(self.session()) <= self.requests()
        &&& self.intake() matches Some(intake) ==> accounts_for(intake, inbound_of(self.session()))
    }

    /// Whether the publisher takes bytes from the server.
    pub open spec fn takes(&self, bytes: Seq<u8>) -> bool {
        self.intake() matches Some(intake) && admits(intake, bytes)
    }

    /// The events that were raised and not taken yet, oldest first.
    pub closed spec fn events(&self) -> Seq<SessionEvent> {
        self.events@
    }

    /// How far publishing has come.
    pub closed spec fn spec_phase(&self) -> Phase {
        self.phase
    }

    /// The application to connect to.
    pub closed spec fn app_name(&self) -> Seq<char> {
        self.app_name@
    }

    /// The stream to publish.
    pub closed spec fn stream_key(&self) -> Seq<char> {
        self.stream_key@
    }

    /// Everything but the session, the phase and the number of requests is as it was in `before`.
    pub open spec fn keeps(&self, before: &Publisher) -> bool {
        &&& self.events() == before.events()
        &&& self.app_name() == before.app_name()
        &&& self.stream_key() == before.stream_key()
        &&& self.intake() == before.intake()
        &&& before.valid() ==> self.valid()
    }

    /// A publisher for one stream of one application, on a new session, and what the session wants
    /// done at once, which is nothing.
    pub fn new(app_name: String, stream_key: String) -> (created: Result<
        (Publisher, VecDeque<SessionResult>),
        PublishError,
    >)
        ensures
            created is Ok,
            created->Ok_0.0.valid(),
            session_created(CHUNK_SIZE, created->Ok_0.0.session()),
            created->Ok_0.0.intake() == Some(nothing_taken()),
            created->Ok_0.0.requests() == 0,
            created->Ok_0.0.state() == SessionState::Idle,
            created->Ok_0.0.events().len() == 0,
            created->Ok_0.0.spec_phase() == Phase::Created,
            created->Ok_0.0.app_name() == app_name@,
            created->Ok_0.0.stream_key() == stream_key@,
            created->Ok_0.1@.len() == 0,
    {
        match new_session(CHUNK_SIZE) {
            Ok((session, results)) => {
                let publisher = Publisher {
                    session,
                    intake: Some(Intake::new()),
                    requests: 0,
                    events: VecDeque::new(),
                    phase: Phase::Created,
                    app_name,
                    stream_key,
                };
                match reply_list(Ok(results)) {
                    Ok(actions) => Ok((publisher, actions)),
                    Err(error) => Err(error),
                }
            },
            Err(error) => Err(PublishError::Session(error)),
        }
    }

    /// A publisher for one stream of one application, on a new session that was handed what the
    /// server sent behind the handshake and nothing before that, and what the session wants done
    /// then; before, it wants nothing. The connection is yet to be asked for.
    pub fn start(app_name: String, stream_key: String, leftover: &[u8]) -> (started: Result<
        (Publisher, VecDeque<SessionResult>),
        PublishError,
    >)
        ensures
            !admits(nothing_taken(), leftover@) ==> started is Err && started->Err_0
                == PublishError::Unreadable,
            admits(nothing_taken(), leftover@) ==> exists|
                new: ClientSession,
                answers: Answers,
                session: ClientSession,
            |
                #![trigger input_handled(new, leftover@, answers, session)]
                {
                    &&& session_created(CHUNK_SIZE, new)
                    &&& input_handled(new, leftover@, answers, session)
                    &&& match answers {
                        Ok(raw) => started is Ok && started->Ok_0.0.session() == session
                            && started->Ok_0.1@ == contents(raw@),
                        Err(error) => started is Err && started->Err_0 == PublishError::Session(
                            error,
                        ),
                    }
                },
            started matches Ok((publisher, actions)) ==> {
                &&& publisher.valid()
                &&& publisher.intake() == Some(account_after(nothing_taken(), leftover@, true))
                &&& publisher.requests() == 0
                &&& publisher.state() == SessionState::Idle
                &&& publisher.events().len() == 0
                &&& publisher.spec_phase() == Phase::Created
                &&& publisher.app_name() == app_name@
                &&& publisher.stream_key() == stream_key@
            },
    {
        match Publisher::new(app_name, stream_key) {
            Ok((mut publisher, _)) => {
                match publisher.receive(Some(leftover)) {
                    Ok(actions) => Ok((publisher, actions)),
                    Err(error) => Err(error),
                }
            },
            Err(error) => Err(error),
        }
    }

    /// How far publishing has come.
    pub fn phase(&self) -> (phase: Phase)
        ensures
            phase == self.spec_phase(),
    {
        self.phase
    }

    /// What to do next.
    pub fn next(&self) -> (next: Next)
        ensures
            next == next_in(self.spec_phase()),
    {
        match self.phase {
            Phase::Created => Next::RequestConnection,
            Phase::AwaitingConnection => Next::AwaitEvent,
            Phase::AwaitingPublish => Next::AwaitEvent,
            Phase::Streaming => Next::AwaitTagOrEvent,
            Phase::Finished => Next::Done,
        }
    }

    /// Whether publishing is over if no event can be had, because the connection is closed or the
    /// session refuses what the server sent: so it is as long as an answer is awaited, and no longer
    /// once tags are being sent.
    pub fn wait_failure_is_fatal(&self) -> (fatal: bool)
        ensures
            fatal == (next_in(self.spec_phase()) == Next::AwaitEvent),
    {
        match self.next() {
            Next::AwaitEvent => true,
            _ => false,
        }
    }

    /// Takes the oldest event, or says that there is none and bytes are needed to get one.
    pub fn wait_event(&mut self) -> (wait: Wait)
        ensures
            final(self).session() == old(self).session(),
            final(self).intake() == old(self).intake(),
            final(self).requests() == old(self).requests(),
            old(self).valid() ==> final(self).valid(),
            final(self).spec_phase() == old(self).spec_phase(),
            final(self).app_name() == old(self).app_name(),
            final(self).stream_key() == old(self).stream_key(),
            old(self).events().len() > 0 ==> wait == Wait::Event(old(self).events()[0])
                && final(self).events() == old(self).events().skip(1),
            old(self).events().len() == 0 ==> wait == Wait::Receive && final(self).events().len()
                == 0,
    {
        match self.events.pop_front() {
            Some(event) => {
                assert(self.events() =~= old(self).events().skip(1));
                Wait::Event(event)
            },
            None => Wait::Receive,
        }
    }

    /// Hands bytes from the server to the session; `None` says that the connection is closed. The
    /// session gets further only by an answer that it was owed. Bytes that the session cannot take
    /// are an error, and so is all that comes behind them.
    pub fn receive(&mut self, bytes: Option<&[u8]>) -> (actions: Result<
        VecDeque<SessionResult>,
        PublishError,
    >)
        requires
            old(self).valid(),
        ensures
            final(self).valid(),
            final(self).requests() == old(self).requests(),
            final(self).events() == old(self).events(),
            final(self).app_name() == old(self).app_name(),
            final(self).stream_key() == old(self).stream_key(),
            final(self).spec_phase() == old(self).spec_phase(),
            match bytes {
                None => {
                    &&& actions == Err::<VecDeque<SessionResult>, PublishError>(
                        PublishError::Disconnected,
                    )
                    &&& final(self).session() == old(self).session()
                    &&& final(self).intake() == old(self).intake()
                },
                Some(received) => if old(self).takes(received@) {
                    &&& exists|answers: Answers|
                        #[trigger] input_handled(
                            old(self).session(),
                            received@,
                            answers,
                            final(self).session(),
                        ) && is_reply_list(answers, actions)
                    &&& final(self).intake() == Some(
                        account_after(old(self).intake()->Some_0, received@, actions is Ok),
                    )
                } else {
                    &&& actions == Err::<VecDeque<SessionResult>, PublishError>(
                        PublishError::Unreadable,
                    )
                    &&& final(self).session() == old(self).session()
                    &&& final(self).intake() is None
                },
            },
            is_settled(old(self).state()) ==> final(self).state() == old(self).state(),
            old(self).state() != SessionState::Other && actions is Ok ==> final(self).state()
                == state_after_input(old(self).state(), actions->Ok_0@),
    {
        let received: &[u8] = match bytes {
            None => {
                return Err(PublishError::Disconnected);
            },
            Some(received) => received,
        };
        let mut account: Option<Intake> = None;
        std::mem::swap(&mut account, &mut self.intake);
        let mut intake = match account {
            None => {
                return Err(PublishError::Unreadable);
            },
            Some(intake) => intake,
        };
        if !intake.take_in(received) {
            return Err(PublishError::Unreadable);
        }
        let ghost account = old(self).intake()->Some_0;
        let ghost before = inbound_of(self.session());
        proof {
            law_account_stays_true(account, before, received@, true, before);
        }
        let answers = handle_input(&mut self.session, received);
        proof {
            law_account_stays_true(
                account,
                before,
                received@,
                answers is Ok,
                inbound_of(self.session()),
            );
        }
        if answers.is_ok() {
            intake.catch_up();
        }
        self.intake = Some(intake);
        assert(input_handled(old(self).session(), received@, answers, self.session()));
        reply_list(answers)
    }

    /// Works off what the session wants done, up to and with the next packet. See
    /// `handle_session_results`.
    pub fn next_packet(&mut self, actions: &mut VecDeque<SessionResult>) -> (packet: Option<
        Vec<u8>,
    >)
        ensures
            final(self).session() == old(self).session(),
            final(self).intake() == old(self).intake(),
            final(self).requests() == old(self).requests(),
            old(self).valid() ==> final(self).valid(),
            final(self).spec_phase() == old(self).spec_phase(),
            final(self).app_name() == old(self).app_name(),
            final(self).stream_key() == old(self).stream_key(),
            final(self).events() == old(self).events() + raised(
                old(actions)@.take(first_packet(old(actions)@)),
            ),
            first_packet(old(actions)@) < old(actions)@.len() ==> {
                &&& packet matches Some(bytes)
                &&& old(actions)@[first_packet(old(actions)@)] == SessionResult::OutboundResponse(
                    bytes,
                )
                &&& final(actions)@ == old(actions)@.skip(first_packet(old(actions)@) + 1)
            },
            first_packet(old(actions)@) >= old(actions)@.len() ==> packet is None
                && final(actions)@.len() == 0,
    {
        handle_session_results(&mut self.events, actions)
    }

    /// Asks for the connection to the application. A session that has asked for nothing grants this
    /// unless the name of the application is too long; one that is connected refuses. A session that
    /// was asked too often is not asked again.
    pub fn request_connection(&mut self) -> (actions: Result<VecDeque<SessionResult>, PublishError>)
        requires
            old(self).valid(),
        ensures
            final(self).valid(),
            final(self).keeps(old(self)),
            final(self).spec_phase() == if actions is Ok {
                Phase::AwaitingConnection
            } else {
                old(self).spec_phase()
            },
            if old(self).requests() < MAX_REQUESTS {
                &&& final(self).requests() == old(self).requests() + 1
                &&& exists|answer: Answer|
                    #[trigger] connection_requested(
                        old(self).session(),
                        old(self).app_name(),
                        answer,
                        final(self).session(),
                    ) && is_reply(answer, actions)
                &&& old(self).state() == SessionState::Idle ==> (actions is Ok <==> encode_utf8(
                    old(self).app_name(),
                ).len() <= MAX_NAME_LEN)
            } else {
                &&& actions == Err::<VecDeque<SessionResult>, PublishError>(
                    PublishError::TooManyRequests,
                )
                &&& final(self).requests() == old(self).requests()
                &&& final(self).session() == old(self).session()
            },
            actions matches Ok(results) ==> results@.len() == 1 && results@[0] is OutboundResponse,
            old(self).state() == SessionState::Idle && actions is Ok ==> final(self).state()
                == SessionState::Connecting,
            is_connected(old(self).state()) ==> actions is Err && final(self).state() == old(
                self,
            ).state(),
    {
        if self.requests >= MAX_REQUESTS {
            return Err(PublishError::TooManyRequests);
        }
        let answer = request_connection(&mut self.session, self.app_name.clone());
        self.requests = self.requests + 1;
        let actions = reply(answer);
        if actions.is_ok() {
            self.phase = Phase::AwaitingConnection;
        }
        assert(connection_requested(
            old(self).session(),
            old(self).app_name(),
            answer,
            self.session(),
        ));
        actions
    }

    /// Reacts to an event: once connected, the stream is asked for, live; once that is granted, the
    /// metadata goes out and tags may follow. An event that does not fit is an error. A session that
    /// was asked too often is not asked again.
    pub fn on_event(&mut self, event: SessionEvent) -> (actions: Result<
        VecDeque<SessionResult>,
        PublishError,
    >)
        requires
            old(self).valid(),
        ensures
            final(self).valid(),
            final(self).keeps(old(self)),
            match reaction(old(self).spec_phase(), event) {
                Err(error) => {
                    &&& actions == Err::<VecDeque<SessionResult>, PublishError>(error)
                    &&& final(self).session() == old(self).session()
                    &&& final(self).requests() == old(self).requests()
                    &&& final(self).spec_phase() == old(self).spec_phase()
                },
                Ok(Step::Ignore) => {
                    &&& actions matches Ok(results)
                    &&& results@.len() == 0
                    &&& final(self).session() == old(self).session()
                    &&& final(self).requests() == old(self).requests()
                    &&& final(self).spec_phase() == old(self).spec_phase()
                },
                Ok(Step::RequestPublishing) => if old(self).requests() < MAX_REQUESTS {
                    &&& final(self).requests() == old(self).requests() + 1
                    &&& exists|answer: Answer|
                        #[trigger] publishing_requested(
                            old(self).session(),
                            old(self).stream_key(),
                            PublishMode::Live,
                            answer,
                            final(self).session(),
                        ) && is_reply(answer, actions)
                    &&& final(self).spec_phase() == if actions is Ok {
                        Phase::AwaitingPublish
                    } else {
                        old(self).spec_phase()
                    }
                    &&& old(self).state() == SessionState::Connected ==> actions is Ok
                        && final(self).state() == SessionState::Requesting
                    &&& refuses_stream(old(self).state()) ==> actions is Err
                        && final(self).state() == old(self).state()
                } else {
                    &&& actions == Err::<VecDeque<SessionResult>, PublishError>(
                        PublishError::TooManyRequests,
                    )
                    &&& final(self).requests() == old(self).requests()
                    &&& final(self).session() == old(self).session()
                    &&& final(self).spec_phase() == old(self).spec_phase()
                },
                Ok(Step::PublishMetadata) => {
                    &&& exists|answer: Answer|
                        #[trigger] metadata_published(
                            old(self).session(),
                            answer,
                            final(self).session(),
                        ) && is_reply(answer, actions)
                    &&& final(self).requests() == old(self).requests()
                    &&& final(self).spec_phase() == if actions is Ok {
                        Phase::Streaming
                    } else {
                        old(self).spec_phase()
                    }
                    &&& final(self).state() == old(self).state()
                    &&& old(self).state() != SessionState::Other ==> (actions is Ok <==> old(
                        self,
                    ).state() == SessionState::Publishing)
                },
            },
            actions matches Ok(results) ==> results@.len() <= 1 && forall|i: int|
                0 <= i < results@.len() ==> #[trigger] results@[i] is OutboundResponse,
    {
        match react(self.phase, event) {
            Err(error) => Err(error),
            Ok(Step::Ignore) => Ok(VecDeque::new()),
            Ok(Step::RequestPublishing) => {
                if self.requests >= MAX_REQUESTS {
                    return Err(PublishError::TooManyRequests);
                }
                let answer = request_publishing(
                    &mut self.session,
                    self.stream_key.clone(),
                    PublishMode::Live,
                );
                self.requests = self.requests + 1;
                let actions = reply(answer);
                if actions.is_ok() {
                    self.phase = Phase::AwaitingPublish;
                }
                assert(publishing_requested(
                    old(self).session(),
                    old(self).stream_key(),
                    PublishMode::Live,
                    answer,
                    self.session(),
                ));
                actions
            },
            Ok(Step::PublishMetadata) => {
                let answer = publish_metadata(&mut self.session);
                let actions = reply(answer);
                if actions.is_ok() {
                    self.phase = Phase::Streaming;
                }
                assert(metadata_published(old(self).session(), answer, self.session()));
                actions
            },
        }
    }

    /// A tag was sent: the session was handed its message, and what is to be done is what the session
    /// answered. A tag that is not sent leaves everything as it was.
    pub open spec fn tag_sent(
        before: &Publisher,
        tag: TimedTag,
        actions: Result<VecDeque<SessionResult>, PublishError>,
        after: &Publisher,
    ) -> bool {
        &&& after.keeps(before)
        &&& after.requests() == before.requests()
        &&& after.spec_phase() == before.spec_phase()
        &&& match media_message_of(tag) {
            None => {
                &&& actions matches Ok(results)
                &&& results@.len() == 0
                &&& after.session() == before.session()
            },
            Some(MediaMessage::Video { data, timestamp, can_be_dropped }) => exists|answer: Answer|
                #[trigger] video_published(
                    before.session(),
                    data@,
                    timestamp,
                    can_be_dropped,
                    answer,
                    after.session(),
                ) && is_reply(answer, actions),
            Some(MediaMessage::Audio { data, timestamp, can_be_dropped }) => exists|answer: Answer|
                #[trigger] audio_published(
                    before.session(),
                    data@,
                    timestamp,
                    can_be_dropped,
                    answer,
                    after.session(),
                ) && is_reply(answer, actions),
        }
        &&& actions matches Ok(results) ==> results@.len() <= 1 && forall|i: int|
            0 <= i < results@.len() ==> #[trigger] results@[i] is OutboundResponse
        &&& after.state() == before.state()
        &&& media_message_of(tag) is Some && tag.data@.len() > MAX_MESSAGE_LEN ==> actions is Err
        &&& before.state() != SessionState::Other ==> (actions is Ok <==> tag_accepted(
            before.state(),
            tag,
        ))
    }

    /// The stream was ended: the session was told to stop, and what is to be done is what the
    /// session answered, which is one packet if there was a stream.
    pub open spec fn stream_ended(
        before: &Publisher,
        actions: Result<VecDeque<SessionResult>, PublishError>,
        after: &Publisher,
    ) -> bool {
        &&& after.keeps(before)
        &&& after.requests() == before.requests()
        &&& after.spec_phase() == Phase::Finished
        &&& exists|answers: Answers|
            #[trigger] publishing_stopped(before.session(), answers, after.session())
                && is_reply_list(answers, actions)
        &&& actions is Ok
        &&& actions->Ok_0@.len() <= 1
        &&& forall|i: int|
            0 <= i < actions->Ok_0@.len() ==> #[trigger] actions->Ok_0@[i] is OutboundResponse
        &&& before.state() == SessionState::Publishing ==> actions->Ok_0@.len() == 1
            && after.state() == SessionState::Connected
        &&& asked_for_no_stream(before.state()) ==> actions->Ok_0@.len() == 0 && after.state()
            == before.state()
    }

    /// Sends a tag of the file. Tags that are neither video nor audio are left out.
    pub fn publish_tag(&mut self, tag: TimedTag) -> (actions: Result<
        VecDeque<SessionResult>,
        PublishError,
    >)
        ensures
            Publisher::tag_sent(old(self), tag, actions, final(self)),
    {
        match media_message(tag) {
            None => Ok(VecDeque::new()),
            Some(MediaMessage::Video { data, timestamp, can_be_dropped }) => {
                let answer = publish_video_data(&mut self.session, data, timestamp, can_be_dropped);
                assert(video_published(
                    old(self).session(),
                    data@,
                    timestamp,
                    can_be_dropped,
                    answer,
                    self.session(),
                ));
                reply(answer)
            },
            Some(MediaMessage::Audio { data, timestamp, can_be_dropped }) => {
                let answer = publish_audio_data(&mut self.session, data, timestamp, can_be_dropped);
                assert(audio_published(
                    old(self).session(),
                    data@,
                    timestamp,
                    can_be_dropped,
                    answer,
                    self.session(),
                ));
                reply(answer)
            },
        }
    }

    /// Ends the stream.
    pub fn finish(&mut self) -> (actions: Result<VecDeque<SessionResult>, PublishError>)
        ensures
            Publisher::stream_ended(old(self), actions, final(self)),
    {
        let answers = stop_publishing(&mut self.session);
        let actions = reply_list(answers);
        if actions.is_ok() {
            self.phase = Phase::Finished;
        }
        assert(publishing_stopped(old(self).session(), answers, self.session()));
        actions
    }

    /// Takes the next tag of the file and sends it; `None` says that the file is finished, and the
    /// stream ends with it.
    pub fn on_tag(&mut self, tag: Option<TimedTag>) -> (actions: Result<
        VecDeque<SessionResult>,
        PublishError,
    >)
        ensures
            match tag {
                Some(tag) => Publisher::tag_sent(old(self), tag, actions, final(self)),
                None => Publisher::stream_ended(old(self), actions, final(self)),
            },
    {
        match tag {
            Some(tag) => self.publish_tag(tag),
            None => self.finish(),
        }
    }
}

/// Where the first packet is: there is none before it, and it is one unless there is none at all.
proof fn lemma_first_packet(results: Seq<SessionResult>)
    ensures
        0 <= first_packet(results) <= results.len(),
        forall|i: int|
            0 <= i < first_packet(results) ==> !(#[trigger] results[i] is OutboundResponse),
        first_packet(results) < results.len() ==> results[first_packet(results)] is OutboundResponse,
    decreases results.len(),
{
    if results.len() > 0 && !(results[0] is OutboundResponse) {
        let rest = results.skip(1);
        lemma_first_packet(rest);
        assert forall|i: int| 0 <= i < first_packet(results) implies !(
        #[trigger] results[i] is OutboundResponse) by {
            if i > 0 {
                assert(rest[i - 1] == results[i]);
            }
        }
    }
}

/// Results without a packet.
proof fn lemma_no_packets(results: Seq<SessionResult>)
    requires
        forall|i: int| 0 <= i < results.len() ==> !(#[trigger] results[i] is OutboundResponse),
    ensures
        packets(results) == Seq::<Seq<u8>>::empty(),
    decreases results.len(),
{
    if results.len() > 0 {
        lemma_no_packets(results.drop_last());
    }
}

/// Events and packets of two lists one after the other.
proof fn lemma_raised_and_packets_of_sum(first: Seq<SessionResult>, second: Seq<SessionResult>)
    ensures
        raised(first + second) == raised(first) + raised(second),
        packets(first + second) == packets(first) + packets(second),
    decreases second.len(),
{
    if second.len() == 0 {
        assert(first + second =~= first);
        assert(raised(first) + raised(second) =~= raised(first));
        assert(packets(first) + packets(second) =~= packets(first));
    } else {
        lemma_raised_and_packets_of_sum(first, second.drop_last());
        assert((first + second).drop_last() =~= first + second.drop_last());
        assert(raised(first + second) =~= raised(first) + raised(second));
        assert(packets(first + second) =~= packets(first) + packets(second));
    }
}

/// The queue of events and the packets sent, once `handle_session_results` has been called until it
/// returned `None`.
pub open spec fn worked_off(events: Seq<SessionEvent>, actions: Seq<SessionResult>) -> (
    Seq<SessionEvent>,
    Seq<Seq<u8>>,
)
    decreases actions.len(),
{
    let at = first_packet(actions);
    let queue = events + raised(actions.take(at));
    if 0 <= at < actions.len() {
        let (final_queue, later) = worked_off(queue, actions.skip(at + 1));
        (final_queue, seq![actions[at]->OutboundResponse_0@] + later)
    } else {
        (queue, Seq::empty())
    }
}

/// Working the results off to the end sends every packet once, in the order in which the session
/// made them, and puts every event on the queue once, in the order in which it was raised.
pub proof fn law_results_are_worked_off_in_order(
    events: Seq<SessionEvent>,
    actions: Seq<SessionResult>,
)
    ensures
        worked_off(events, actions).0 == events + raised(actions),
        worked_off(events, actions).1 == packets(actions),
    decreases actions.len(),
{
    let at = first_packet(actions);
    lemma_first_packet(actions);
    let front = actions.take(at);
    lemma_no_packets(front);
    if at < actions.len() {
        let queue = events + raised(front);
        let rest = actions.skip(at + 1);
        law_results_are_worked_off_in_order(queue, rest);
        let packet = seq![actions[at]];
        assert(actions =~= front + packet + rest);
        lemma_raised_and_packets_of_sum(front + packet, rest);
        lemma_raised_and_packets_of_sum(front, packet);
        reveal_with_fuel(raised, 2);
        reveal_with_fuel(packets, 2);
        assert(packet.drop_last() =~= Seq::empty());
        assert(worked_off(events, actions).0 =~= events + raised(actions));
        assert(worked_off(events, actions).1 =~= packets(actions));
    } else {
        assert(front =~= actions);
    }
}

/// The phase after a list of events, if none of them ends publishing and the session grants every
/// request.
pub open spec fn phase_after_all(phase: Phase, events: Seq<SessionEvent>) -> Result<
    Phase,
    PublishError,
>
    decreases events.len(),
{
    if events.len() == 0 {
        Ok(phase)
    } else {
        match reaction(phase, events[0]) {
            Ok(step) => phase_after_all(phase_after(phase, step), events.skip(1)),
            Err(error) => Err(error),
        }
    }
}

/// After the connection is requested, tags can be sent exactly when the first event is that the
/// connection was accepted and the second that publishing was.
pub proof fn law_streaming_needs_both_answers(events: Seq<SessionEvent>)
    ensures
        phase_after_all(Phase::AwaitingConnection, events) == Ok::<Phase, PublishError>(
            Phase::Streaming,
        ) <==> events.len() >= 2 && events[0] is ConnectionRequestAccepted
            && events[1] is PublishRequestAccepted,
{
    reveal_with_fuel(phase_after_all, 3);
    if events.len() >= 2 {
        let rest = events.skip(1);
        assert(rest[0] == events[1]);
        law_streaming_ignores_events(rest.skip(1));
    }
}

/// Nothing that the server raises takes publishing back: once the stream runs it runs on.
pub proof fn law_streaming_ignores_events(events: Seq<SessionEvent>)
    ensures
        phase_after_all(Phase::Streaming, events) == Ok::<Phase, PublishError>(Phase::Streaming),
    decreases events.len(),
{
    if events.len() > 0 {
        law_streaming_ignores_events(events.skip(1));
    }
}

/// A refused connection is reported with the reason that the server gave.
pub proof fn law_refusal_is_reported(description: String, later: Seq<SessionEvent>)
    ensures
        phase_after_all(
            Phase::AwaitingConnection,
            seq![SessionEvent::ConnectionRequestRejected { description }] + later,
        ) == Err::<Phase, PublishError>(PublishError::ConnectionRejected { description }),
{
}

/// An event comes out of the results that raised it.
proof fn lemma_raised_comes_from(results: Seq<SessionResult>, k: int) -> (i: int)
    requires
        0 <= k < raised(results).len(),
    ensures
        0 <= i < results.len(),
        results[i] == SessionResult::RaisedEvent(raised(results)[k]),
    decreases results.len(),
{
    let front = results.drop_last();
    if k < raised(front).len() {
        lemma_raised_comes_from(front, k)
    } else {
        results.len() - 1
    }
}

/// An event tells how far the session is: where the acceptance of a connection request is among the
/// events that the server's answer raised, the session is connected and will grant the request for
/// a stream; where the acceptance of that is among them, it publishes.
pub proof fn law_events_tell_the_state(state: SessionState, results: Seq<SessionResult>, k: int)
    requires
        0 <= k < raised(results).len(),
    ensures
        state == SessionState::Connecting && raised(results)[k] is ConnectionRequestAccepted
            ==> state_after_input(state, results) == SessionState::Connected,
        state == SessionState::Requesting && raised(results)[k] is PublishRequestAccepted
            ==> state_after_input(state, results) == SessionState::Publishing,
{
    let i = lemma_raised_comes_from(results, k);
    assert(results[i] is RaisedEvent);
}

/// How far a session has come after a number of inputs from the server, each given by its results.
pub open spec fn state_after_inputs(
    state: SessionState,
    inputs: Seq<Seq<SessionResult>>,
) -> SessionState
    decreases inputs.len(),
{
    if inputs.len() == 0 {
        state
    } else {
        state_after_input(state_after_inputs(state, inputs.drop_last()), inputs.last())
    }
}

/// Once the server has granted the stream, nothing that it sends takes it back: every tag that fits
/// in a message is accepted.
pub proof fn law_publishing_lasts(inputs: Seq<Seq<SessionResult>>, tag: TimedTag)
    ensures
        state_after_inputs(SessionState::Publishing, inputs) == SessionState::Publishing,
        tag.data@.len() <= MAX_MESSAGE_LEN ==> tag_accepted(
            state_after_inputs(SessionState::Publishing, inputs),
            tag,
        ),
    decreases inputs.len(),
{
    if inputs.len() > 0 {
        law_publishing_lasts(inputs.drop_last(), tag);
    }
}

/// A session that waits for its stream publishes, after any number of inputs, exactly if one of
/// them granted the stream.
pub proof fn law_publishing_needs_a_grant(inputs: Seq<Seq<SessionResult>>)
    ensures
        state_after_inputs(SessionState::Requesting, inputs) == SessionState::Publishing
            <==> exists|i: int| 0 <= i < inputs.len() && grants_stream(#[trigger] inputs[i]),
        state_after_inputs(SessionState::Requesting, inputs) == SessionState::Publishing
            || state_after_inputs(SessionState::Requesting, inputs) == SessionState::Requesting,
    decreases inputs.len(),
{
    if inputs.len() > 0 {
        let front = inputs.drop_last();
        law_publishing_needs_a_grant(front);
        if exists|i: int| 0 <= i < inputs.len() && grants_stream(#[trigger] inputs[i]) {
            let i = choose|i: int| 0 <= i < inputs.len() && grants_stream(#[trigger] inputs[i]);
            if i < front.len() {
                assert(grants_stream(front[i]));
            }
        }
        if exists|i: int| 0 <= i < front.len() && grants_stream(#[trigger] front[i]) {
            let i = choose|i: int| 0 <= i < front.len() && grants_stream(#[trigger] front[i]);
            assert(grants_stream(inputs[i]));
        }
        if grants_stream(inputs.last()) {
            assert(grants_stream(inputs[inputs.len() - 1]));
        }
    }
}

/// Of the tags of a file, a publishing session accepts every one but a video or audio tag whose
/// data takes up nearly all that its size field can count.
pub proof fn law_which_tags_of_a_file_are_accepted(
    file: Seq<u8>,
    pos: int,
    header: TagHeader,
    tag: TimedTag,
)
    requires
        0 <= pos,
        tag_at(file, pos) == Some((header, tag.data@)),
        tag.header == header,
    ensures
        tag_accepted(SessionState::Publishing, tag) <==> header.tag_type == TagType::Script
            || header.data_size <= 16_777_200,
{
    let prefix = file.subrange(pos, pos + TAG_PREFIX_LEN);
    law_when_a_tag_fits_a_message(prefix);
}

/// How far along a phase is.
pub open spec fn rank(phase: Phase) -> int {
    match phase {
        Phase::Created => 0,
        Phase::AwaitingConnection => 1,
        Phase::AwaitingPublish => 2,
        Phase::Streaming => 3,
        Phase::Finished => 4,
    }
}

/// Events only take publishing forward: while an answer is awaited, an event is an error or leads to
/// the next phase, and otherwise it changes nothing.
pub proof fn law_events_lead_forward(phase: Phase, event: SessionEvent)
    ensures
        next_in(phase) == Next::AwaitEvent ==> (reaction(phase, event) matches Ok(step) ==> rank(
            phase_after(phase, step),
        ) == rank(phase) + 1),
        next_in(phase) != Next::AwaitEvent ==> (reaction(phase, event) matches Ok(step)
            && phase_after(phase, step) == phase),
{
}

/// A tag as it was read goes out as it is: all of its bytes, at its own timestamp, not to be
/// dropped; script tags stay behind.
pub proof fn law_tag_is_published_as_read(tag: TimedTag)
    requires
        tag.offset_ms == tag.header.timestamp,
    ensures
        media_message_of(tag) == match tag.header.tag_type {
            TagType::Video => Some(
                MediaMessage::Video {
                    data: tag.data,
                    timestamp: tag.header.timestamp,
                    can_be_dropped: false,
                },
            ),
            TagType::Audio => Some(
                MediaMessage::Audio {
                    data: tag.data,
                    timestamp: tag.header.timestamp,
                    can_be_dropped: false,
                },
            ),
            TagType::Script => None,
        },
{
}

/// Of a list of results, every event is queued, whatever it carries, in order, and nothing else is;
/// and every packet is sent, in order, and nothing else is.
pub proof fn law_no_event_and_no_packet_is_left_out(results: Seq<SessionResult>)
    ensures
        raised(results) == results.filter(|r: SessionResult| r is RaisedEvent).map_values(
            |r: SessionResult| r->RaisedEvent_0,
        ),
        packets(results) == results.filter(|r: SessionResult| r is OutboundResponse).map_values(
            |r: SessionResult| r->OutboundResponse_0@,
        ),
        forall|i: int|
            0 <= i < results.len() && (#[trigger] results[i]) is RaisedEvent ==> raised(
                results,
            ).contains(results[i]->RaisedEvent_0),
        forall|i: int|
            0 <= i < results.len() && (#[trigger] results[i]) is OutboundResponse ==> packets(
                results,
            ).contains(results[i]->OutboundResponse_0@),
    decreases results.len(),
{
    reveal(Seq::filter);
    let is_event = |r: SessionResult| r is RaisedEvent;
    let is_packet = |r: SessionResult| r is OutboundResponse;
    if results.len() > 0 {
        let front = results.drop_last();
        let last = results.last();
        law_no_event_and_no_packet_is_left_out(front);
        assert(results =~= front.push(last));
        assert(raised(results) =~= results.filter(is_event).map_values(
            |r: SessionResult| r->RaisedEvent_0,
        ));
        assert(packets(results) =~= results.filter(is_packet).map_values(
            |r: SessionResult| r->OutboundResponse_0@,
        ));
        assert forall|i: int|
            0 <= i < results.len() && (#[trigger] results[i]) is RaisedEvent implies raised(
            results,
        ).contains(results[i]->RaisedEvent_0) by {
            if i < front.len() {
                assert(front[i] == results[i]);
                let k = raised(front).index_of(results[i]->RaisedEvent_0);
                assert(raised(results)[k] == results[i]->RaisedEvent_0);
            } else {
                assert(raised(results).last() == last->RaisedEvent_0);
            }
        }
        assert forall|i: int|
            0 <= i < results.len() && (#[trigger] results[i]) is OutboundResponse implies packets(
            results,
        ).contains(results[i]->OutboundResponse_0@) by {
            if i < front.len() {
                assert(front[i] == results[i]);
                let k = packets(front).index_of(results[i]->OutboundResponse_0@);
                assert(packets(results)[k] == results[i]->OutboundResponse_0@);
            } else {
                assert(packets(results).last() == last->OutboundResponse_0@);
            }
        }
    } else {
        assert(raised(results) =~= results.filter(is_event).map_values(
            |r: SessionResult| r->RaisedEvent_0,
        ));
        assert(packets(results) =~= results.filter(is_packet).map_values(
            |r: SessionResult| r->OutboundResponse_0@,
        ));
    }
}

/// One more result adds its event at the end of the queue if it is one, and its packet to those sent
/// if it is one, whatever either holds.
pub proof fn law_one_more_result(results: Seq<SessionResult>, result: SessionResult)
    ensures
        raised(Seq::empty()).len() == 0,
        packets(Seq::empty()).len() == 0,
        result matches SessionResult::RaisedEvent(event) ==> raised(results.push(result)) == raised(
            results,
        ).push(event) && packets(results.push(result)) == packets(results),
        result matches SessionResult::OutboundResponse(packet) ==> packets(results.push(result))
            == packets(results).push(packet@) && raised(results.push(result)) == raised(results),
        result is UnhandleableMessageReceived ==> packets(results.push(result)) == packets(results)
            && raised(results.push(result)) == raised(results),
{
    assert(results.push(result).drop_last() =~= results);
}

/// Results are worked off up to the first packet: there is none before that place, and there is one
/// at it, unless there is none at all, and then all results are worked off.
pub proof fn law_first_packet_is_the_first(results: Seq<SessionResult>)
    ensures
        0 <= first_packet(results) <= results.len(),
        forall|i: int|
            0 <= i < first_packet(results) ==> !(#[trigger] results[i] is OutboundResponse),
        first_packet(results) < results.len() ==> results[first_packet(results)] is OutboundResponse,
{
    lemma_first_packet(results);
}

/// While the connection is awaited, its acceptance leads to the request for the stream, its refusal
/// ends publishing with the reason given, and any other event ends it as unexpected. While the
/// stream is awaited, its grant leads to the metadata, and any other event is unexpected. At other
/// times nothing comes of an event.
pub proof fn law_what_events_lead_to(phase: Phase, event: SessionEvent)
    ensures
        phase == Phase::AwaitingConnection && event is ConnectionRequestAccepted ==> reaction(
            phase,
            event,
        ) == Ok::<Step, PublishError>(Step::RequestPublishing),
        phase == Phase::AwaitingConnection ==> (event matches
            SessionEvent::ConnectionRequestRejected { description } ==> reaction(phase, event)
            == Err::<Step, PublishError>(PublishError::ConnectionRejected { description })),
        phase == Phase::AwaitingConnection && (event is PublishRequestAccepted || event is Other)
            ==> reaction(phase, event) == Err::<Step, PublishError>(PublishError::UnexpectedEvent),
        phase == Phase::AwaitingPublish && event is PublishRequestAccepted ==> reaction(phase, event)
            == Ok::<Step, PublishError>(Step::PublishMetadata),
        phase == Phase::AwaitingPublish && !(event is PublishRequestAccepted) ==> reaction(
            phase,
            event,
        ) == Err::<Step, PublishError>(PublishError::UnexpectedEvent),
        phase != Phase::AwaitingConnection && phase != Phase::AwaitingPublish ==> reaction(
            phase,
            event,
        ) == Ok::<Step, PublishError>(Step::Ignore),
        phase_after(phase, Step::RequestPublishing) == Phase::AwaitingPublish,
        phase_after(phase, Step::PublishMetadata) == Phase::Streaming,
        phase_after(phase, Step::Ignore) == phase,
{
}

/// Publishing asks for the connection first, waits for events until both answers are there, then for
/// tags and events, and is over once it is finished.
pub proof fn law_what_to_do_in_each_phase(phase: Phase)
    ensures
        next_in(phase) == Next::RequestConnection <==> phase == Phase::Created,
        next_in(phase) == Next::AwaitEvent <==> phase == Phase::AwaitingConnection || phase
            == Phase::AwaitingPublish,
        next_in(phase) == Next::AwaitTagOrEvent <==> phase == Phase::Streaming,
        next_in(phase) == Next::Done <==> phase == Phase::Finished,
{
}

/// Every video tag goes out as video and every audio tag as audio, with all of its bytes, at its time
/// modulo two to the power 32, not to be dropped. No other tag goes out.
pub proof fn law_every_video_and_audio_tag_goes_out(tag: TimedTag)
    ensures
        media_message_of(tag) is None <==> tag.header.tag_type == TagType::Script,
        tag.header.tag_type == TagType::Video <==> (media_message_of(tag) matches Some(message)
            && message is Video),
        tag.header.tag_type == TagType::Audio <==> (media_message_of(tag) matches Some(message)
            && message is Audio),
        media_message_of(tag) matches Some(MediaMessage::Video { data, timestamp, can_be_dropped })
            ==> data == tag.data && timestamp == tag.offset_ms % 0x1_0000_0000 && !can_be_dropped,
        media_message_of(tag) matches Some(MediaMessage::Audio { data, timestamp, can_be_dropped })
            ==> data == tag.data && timestamp == tag.offset_ms % 0x1_0000_0000 && !can_be_dropped,
{
}

/// A publishing session takes every tag that one message can hold, and every tag that is neither
/// video nor audio; a session that does not publish takes only the latter.
pub proof fn law_which_tags_are_accepted(state: SessionState, tag: TimedTag)
    ensures
        tag_accepted(state, tag) <==> tag.header.tag_type == TagType::Script || (state
            == SessionState::Publishing && tag.data@.len() <= 16_777_215),
{
}

/// A tag that was sent was handed to the session: video as video, audio as audio, with all of its
/// bytes at its time, and what is to be done is what the session answered. Of any other tag nothing
/// was handed to it. Events, names and phase are as they were.
pub proof fn law_sent_tag_was_handed_to_the_session(
    before: &Publisher,
    tag: TimedTag,
    actions: Result<VecDeque<SessionResult>, PublishError>,
    after: &Publisher,
)
    requires
        Publisher::tag_sent(before, tag, actions, after),
    ensures
        after.events() == before.events(),
        after.spec_phase() == before.spec_phase(),
        after.app_name() == before.app_name(),
        after.stream_key() == before.stream_key(),
        tag.header.tag_type == TagType::Video ==> exists|answer: Answer|
            #[trigger] video_published(
                before.session(),
                tag.data@,
                (tag.offset_ms % 0x1_0000_0000) as u32,
                false,
                answer,
                after.session(),
            ) && is_reply(answer, actions),
        tag.header.tag_type == TagType::Audio ==> exists|answer: Answer|
            #[trigger] audio_published(
                before.session(),
                tag.data@,
                (tag.offset_ms % 0x1_0000_0000) as u32,
                false,
                answer,
                after.session(),
            ) && is_reply(answer, actions),
        tag.header.tag_type == TagType::Script ==> after.session() == before.session() && actions
            is Ok && actions->Ok_0@.len() == 0,
        before.state() == SessionState::Publishing ==> (actions is Ok <==> tag.header.tag_type
            == TagType::Script || tag.data@.len() <= 16_777_215),
{
}

/// When the stream was ended, the session was told to stop, publishing is finished, and if there was
/// a stream one packet says so to the server.
pub proof fn law_ended_stream_was_stopped(
    before: &Publisher,
    actions: Result<VecDeque<SessionResult>, PublishError>,
    after: &Publisher,
)
    requires
        Publisher::stream_ended(before, actions, after),
    ensures
        after.spec_phase() == Phase::Finished,
        after.events() == before.events(),
        exists|answers: Answers|
            #[trigger] publishing_stopped(before.session(), answers, after.session())
                && is_reply_list(answers, actions),
        actions is Ok,
        before.state() == SessionState::Publishing ==> actions->Ok_0@.len() == 1
            && actions->Ok_0@[0] is OutboundResponse,
{
}

/// What is kept is all that the publisher has but the session, the phase and the number of requests:
/// the events in order, both names, and the account.
pub proof fn law_what_is_kept(before: &Publisher, after: &Publisher)
    requires
        after.keeps(before),
    ensures
        after.events() == before.events(),
        after.app_name() == before.app_name(),
        after.stream_key() == before.stream_key(),
        after.intake() == before.intake(),
        before.valid() ==> after.valid(),
{
}

/// A publisher that is between two messages of the server takes a whole message that is neither a
/// command nor data, in one chunk with a full header, whatever is in it, as long as the bytes can be
/// counted: such a message is never an error of the publisher's own.
pub proof fn law_other_messages_are_taken(
    publisher: &Publisher,
    stream: u8,
    fields: Seq<u8>,
    data: Seq<u8>,
)
    requires
        publisher.intake() is Some,
        ({
            let intake = publisher.intake()->Some_0;
            &&& intake.chunks.part == (PartView::Head { bytes: Seq::empty() })
            &&& intake.chunks.data.len() == 0
            &&& data.len() <= intake.chunks.limit
            &&& intake.received + 12 + data.len() <= 0xffff_ffff_ffff_ffff
            &&& (intake.current && intake.window is None) || intake.unacked + 12 + data.len()
                <= 0xffff_ffff
        }),
        2 <= stream < 64,
        fields.len() == 11,
        !(fields[0] == 255 && fields[1] == 255 && fields[2] == 255),
        data.len() == fields[3] * 65536 + fields[4] * 256 + fields[5],
        fields[6] != 15,
        fields[6] != 17,
        fields[6] != 18,
        fields[6] != 20,
    ensures
        publisher.takes(seq![stream] + fields + data),
{
    law_other_messages_are_admitted(publisher.intake()->Some_0, stream, fields, data);
}

/// A publisher takes what its account admits, until it has turned something down.
pub proof fn law_publisher_goes_by_its_account(publisher: &Publisher, bytes: Seq<u8>)
    ensures
        publisher.takes(bytes) <==> publisher.intake() is Some && admits(
            publisher.intake()->Some_0,
            bytes,
        ),
{
}

/// Messages are cut into chunks of half a mebibyte.
pub proof fn law_size_of_chunks()
    ensures
        CHUNK_SIZE == 524288,
{
}

} // verus!
