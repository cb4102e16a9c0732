use flv_publisher::error::PublishError;
use flv_publisher::flv::{TagHeader, TagType};
use flv_publisher::handshake::{
    continue_handshake, handshake_reply, start_handshake, HandshakeStep, OPENING_LEN, PACKET_LEN,
    SERVER_LEN,
};
use flv_publisher::pacing::{timed_tag, TimedTag};
use flv_publisher::publisher::{
    handle_session_results, media_message, react, MediaMessage, Next, Phase, Publisher, Step, Wait,
};
use flv_publisher::session::{reply, reply_list, SessionEvent, SessionResult};
use rml_rtmp::chunk_io::Packet;
use rml_rtmp::handshake::{Handshake, HandshakeError, HandshakeProcessResult, PeerType};
use rml_rtmp::messages::MessagePayload;
use rml_rtmp::sessions::{
    ClientSessionError, ClientSessionEvent, ClientSessionResult, ServerSession,
    ServerSessionConfig, ServerSessionEvent, ServerSessionResult, StreamMetadata,
};
use std::collections::VecDeque;

fn tag(tag_type: TagType, timestamp: u32, data: &[u8]) -> TimedTag {
    let header = TagHeader { tag_type, data_size: data.len() as u32, timestamp, stream_id: 0 };
    timed_tag(header, data.to_vec())
}

/// A server that grants everything.
struct Server {
    session: ServerSession,
    events: Vec<ServerSessionEvent>,
}

impl Server {
    fn new(say_hello: bool) -> (Server, Vec<u8>) {
        let mut config = ServerSessionConfig::new();
        config.send_on_bw_done_message_on_start = say_hello;
        let (session, results) = ServerSession::new(config).unwrap();
        let mut server = Server { session, events: Vec::new() };
        let greeting = server.collect(results);
        (server, greeting)
    }

    fn collect(&mut self, results: Vec<ServerSessionResult>) -> Vec<u8> {
        let mut out = Vec::new();
        for result in results {
            match result {
                ServerSessionResult::OutboundResponse(packet) => out.extend(packet.bytes),
                ServerSessionResult::RaisedEvent(event) => self.events.push(event),
                ServerSessionResult::UnhandleableMessageReceived(_) => {}
            }
        }
        out
    }

    fn accept(&mut self, request_id: u32) -> Vec<u8> {
        let results = self.session.accept_request(request_id).unwrap();
        self.collect(results)
    }

    fn handle(&mut self, bytes: &[u8]) -> Vec<u8> {
        let results = self.session.handle_input(bytes).unwrap();
        self.collect(results)
    }
}

/// Sends what is to be sent and returns the answer of the server.
fn send(
    publisher: &mut Publisher,
    server: &mut Server,
    mut actions: VecDeque<SessionResult>,
) -> Vec<u8> {
    let mut answer = Vec::new();
    while let Some(packet) = publisher.next_packet(&mut actions) {
        answer.extend(server.handle(&packet));
    }
    assert!(actions.is_empty());
    answer
}

fn event_of(publisher: &mut Publisher) -> SessionEvent {
    match publisher.wait_event() {
        Wait::Event(event) => event,
        Wait::Receive => panic!("no event"),
    }
}

/// A publisher that has come as far as sending tags, and its server.
fn streaming() -> (Publisher, Server) {
    let (mut server, greeting) = Server::new(false);
    let (mut publisher, actions) =
        Publisher::new("app".to_string(), "stream key".to_string()).unwrap();
    assert_eq!(publisher.phase(), Phase::Created);
    assert_eq!(publisher.next(), Next::RequestConnection);
    assert!(send(&mut publisher, &mut server, actions).is_empty());

    let actions = publisher.receive(Some(&greeting)).unwrap();
    let answer = send(&mut publisher, &mut server, actions);
    assert!(answer.is_empty());

    let actions = publisher.request_connection().unwrap();
    assert_eq!(publisher.next(), Next::AwaitEvent);
    let mut inbound = send(&mut publisher, &mut server, actions);
    let request_id = match server.events.remove(0) {
        ServerSessionEvent::ConnectionRequested { request_id, app_name } => {
            assert_eq!(app_name, "app");
            request_id
        }
        other => panic!("unexpected {:?}", other),
    };
    inbound.extend(server.accept(request_id));
    assert!(matches!(publisher.wait_event(), Wait::Receive));
    let actions = publisher.receive(Some(&inbound)).unwrap();
    assert_eq!(actions.len(), 3);
    match actions.back() {
        Some(SessionResult::OutboundResponse(bytes)) => {
            assert!(bytes.ends_with(&524_288u32.to_be_bytes()))
        }
        other => panic!("unexpected {:?}", other),
    }
    let answer = send(&mut publisher, &mut server, actions);
    assert!(answer.is_empty());

    let event = event_of(&mut publisher);
    assert!(matches!(event, SessionEvent::ConnectionRequestAccepted));
    let actions = publisher.on_event(event).unwrap();
    assert_eq!(publisher.phase(), Phase::AwaitingPublish);
    let inbound = send(&mut publisher, &mut server, actions);
    let actions = publisher.receive(Some(&inbound)).unwrap();
    let mut inbound = send(&mut publisher, &mut server, actions);
    let request_id = match server.events.remove(0) {
        ServerSessionEvent::PublishStreamRequested { request_id, app_name, stream_key, mode } => {
            assert_eq!(app_name, "app");
            assert_eq!(stream_key, "stream key");
            assert_eq!(mode, rml_rtmp::sessions::PublishMode::Live);
            request_id
        }
        other => panic!("unexpected {:?}", other),
    };
    inbound.extend(server.accept(request_id));
    let actions = publisher.receive(Some(&inbound)).unwrap();
    send(&mut publisher, &mut server, actions);

    let event = event_of(&mut publisher);
    assert!(matches!(event, SessionEvent::PublishRequestAccepted));
    let actions = publisher.on_event(event).unwrap();
    assert_eq!(publisher.phase(), Phase::Streaming);
    assert_eq!(publisher.next(), Next::AwaitTagOrEvent);
    assert!(!publisher.wait_failure_is_fatal());
    send(&mut publisher, &mut server, actions);
    assert_eq!(
        server.events,
        vec![ServerSessionEvent::StreamMetadataChanged {
            app_name: "app".to_string(),
            stream_key: "stream key".to_string(),
            metadata: StreamMetadata::new(),
        }]
    );
    server.events.clear();
    (publisher, server)
}

#[test]
fn tags_arrive_as_they_were_read() {
    let (mut publisher, mut server) = streaming();
    let frame = vec![7u8; 600_000];
    for item in [
        tag(TagType::Script, 0, b"left out"),
        tag(TagType::Video, 0, &frame),
        tag(TagType::Audio, 23, b"sound"),
        tag(TagType::Video, 40, b"delta"),
    ] {
        let actions = publisher.on_tag(Some(item)).unwrap();
        send(&mut publisher, &mut server, actions);
    }
    let mut seen = Vec::new();
    for event in server.events.drain(..) {
        match event {
            ServerSessionEvent::VideoDataReceived { data, timestamp, .. } => {
                seen.push((TagType::Video, timestamp.value, data.to_vec()))
            }
            ServerSessionEvent::AudioDataReceived { data, timestamp, .. } => {
                seen.push((TagType::Audio, timestamp.value, data.to_vec()))
            }
            other => panic!("unexpected {:?}", other),
        }
    }
    assert_eq!(
        seen,
        vec![
            (TagType::Video, 0, frame),
            (TagType::Audio, 23, b"sound".to_vec()),
            (TagType::Video, 40, b"delta".to_vec()),
        ]
    );
}

#[test]
fn script_tags_ask_nothing_of_the_session() {
    let (mut publisher, _server) = streaming();
    assert!(publisher.publish_tag(tag(TagType::Script, 5, b"x")).unwrap().is_empty());
}

#[test]
fn tags_too_long_for_a_message_are_refused() {
    let (mut publisher, _server) = streaming();
    let longest = vec![0u8; 16_777_215];
    let too_long = vec![0u8; 16_777_216];
    assert!(publisher.publish_tag(tag(TagType::Video, 0, &longest)).is_ok());
    assert!(matches!(
        publisher.publish_tag(tag(TagType::Video, 0, &too_long)),
        Err(PublishError::Session(_))
    ));
    assert!(matches!(
        publisher.publish_tag(tag(TagType::Audio, 0, &too_long)),
        Err(PublishError::Session(_))
    ));
}

#[test]
fn end_of_the_file_ends_the_stream() {
    let (mut publisher, mut server) = streaming();
    let actions = publisher.on_tag(None).unwrap();
    assert_eq!(actions.len(), 1);
    send(&mut publisher, &mut server, actions);
    assert_eq!(publisher.phase(), Phase::Finished);
    assert_eq!(publisher.next(), Next::Done);
    assert_eq!(
        server.events,
        vec![ServerSessionEvent::PublishStreamFinished {
            app_name: "app".to_string(),
            stream_key: "stream key".to_string(),
        }]
    );
}

#[test]
fn events_are_ignored_while_streaming() {
    let (mut publisher, _server) = streaming();
    let event = SessionEvent::ConnectionRequestRejected { description: "late".to_string() };
    assert!(publisher.on_event(event).unwrap().is_empty());
    assert_eq!(publisher.phase(), Phase::Streaming);
}

#[test]
fn finishing_before_publishing_sends_nothing() {
    let (mut publisher, _) = Publisher::new("a".to_string(), "k".to_string()).unwrap();
    assert!(publisher.finish().unwrap().is_empty());
}

#[test]
fn tags_before_publishing_are_refused_by_the_session() {
    let (mut publisher, _) = Publisher::new("a".to_string(), "k".to_string()).unwrap();
    assert!(matches!(
        publisher.publish_tag(tag(TagType::Video, 0, b"x")),
        Err(PublishError::Session(ClientSessionError::SessionInInvalidState { .. }))
    ));
}

#[test]
fn a_server_that_speaks_first_is_unexpected() {
    let (mut server, greeting) = Server::new(true);
    let (mut publisher, _) = Publisher::new("app".to_string(), "key".to_string()).unwrap();
    let actions = publisher.receive(Some(&greeting)).unwrap();
    send(&mut publisher, &mut server, actions);
    let actions = publisher.request_connection().unwrap();
    send(&mut publisher, &mut server, actions);
    let event = event_of(&mut publisher);
    assert!(matches!(event, SessionEvent::Other(_)));
    let error = publisher.on_event(event).unwrap_err();
    assert!(matches!(error, PublishError::UnexpectedEvent));
    assert_eq!(error.message().unwrap(), "Unexpected event");
}

#[test]
fn a_refused_connection_is_reported() {
    let (mut server, greeting) = Server::new(false);
    let (mut publisher, _) = Publisher::new("app".to_string(), "key".to_string()).unwrap();
    let actions = publisher.receive(Some(&greeting)).unwrap();
    send(&mut publisher, &mut server, actions);
    let actions = publisher.request_connection().unwrap();
    let mut inbound = send(&mut publisher, &mut server, actions);
    let request_id = match server.events.remove(0) {
        ServerSessionEvent::ConnectionRequested { request_id, .. } => request_id,
        other => panic!("unexpected {:?}", other),
    };
    let results = server.session.reject_request(request_id, "code", "go away").unwrap();
    inbound.extend(server.collect(results));
    let actions = publisher.receive(Some(&inbound)).unwrap();
    send(&mut publisher, &mut server, actions);
    let event = event_of(&mut publisher);
    let error = publisher.on_event(event).unwrap_err();
    assert_eq!(error.message().unwrap(), "go away");
    assert!(matches!(error, PublishError::ConnectionRejected { .. }));
    assert_eq!(publisher.phase(), Phase::AwaitingConnection);
}

#[test]
fn a_second_connection_request_is_refused() {
    let (mut publisher, _server) = streaming();
    assert!(matches!(
        publisher.request_connection(),
        Err(PublishError::Session(ClientSessionError::CantConnectWhileAlreadyConnected))
    ));
    assert_eq!(publisher.phase(), Phase::Streaming);
}

#[test]
fn names_too_long_for_a_request_are_refused() {
    let (mut publisher, _) = Publisher::new("a".repeat(65_535), "k".to_string()).unwrap();
    assert!(publisher.request_connection().is_ok());
    let (mut publisher, _) = Publisher::new("a".repeat(65_536), "k".to_string()).unwrap();
    assert!(matches!(publisher.request_connection(), Err(PublishError::Session(_))));
    assert_eq!(publisher.phase(), Phase::Created);
    let (mut publisher, _) = Publisher::new("\u{e4}".repeat(32_768), "k".to_string()).unwrap();
    assert!(matches!(publisher.request_connection(), Err(PublishError::Session(_))));
}

#[test]
fn made_up_answers_are_refused_by_the_session() {
    let (mut publisher, _) = Publisher::new("a".to_string(), "k".to_string()).unwrap();
    publisher.request_connection().unwrap();
    assert!(matches!(
        publisher.on_event(SessionEvent::ConnectionRequestAccepted),
        Err(PublishError::Session(ClientSessionError::SessionInInvalidState { .. }))
    ));
    assert_eq!(publisher.phase(), Phase::AwaitingConnection);
}

#[test]
fn publishing_lasts_whatever_the_server_sends() {
    let (mut publisher, mut server) = streaming();
    for _ in 0..3 {
        let (ping, _) = server.session.send_ping_request().unwrap();
        let actions = publisher.receive(Some(&ping.bytes)).unwrap();
        assert_eq!(actions.len(), 1);
        send(&mut publisher, &mut server, actions);
        assert!(publisher.publish_tag(tag(TagType::Video, 0, b"x")).is_ok());
    }
    assert!(publisher.receive(Some(&[0xff])).is_err());
    assert!(publisher.publish_tag(tag(TagType::Audio, 0, b"x")).is_ok());
}

#[test]
fn a_closed_connection_is_an_error() {
    let (mut publisher, _) = Publisher::new("a".to_string(), "k".to_string()).unwrap();
    let error = publisher.receive(None).unwrap_err();
    assert!(matches!(error, PublishError::Disconnected));
    assert_eq!(error.message().unwrap(), "Failed to read");
}

#[test]
fn bytes_that_are_no_chunks_are_an_error() {
    let (mut publisher, _) = Publisher::new("a".to_string(), "k".to_string()).unwrap();
    let error = publisher.receive(Some(&[0xc3])).unwrap_err();
    assert!(matches!(error, PublishError::Session(_)));
    assert!(error.message().is_none());
}

#[test]
fn reactions_while_the_connection_is_awaited() {
    let phase = Phase::AwaitingConnection;
    assert_eq!(
        react(phase, SessionEvent::ConnectionRequestAccepted).unwrap(),
        Step::RequestPublishing
    );
    assert!(matches!(
        react(phase, SessionEvent::PublishRequestAccepted),
        Err(PublishError::UnexpectedEvent)
    ));
    let other = SessionEvent::Other(ClientSessionEvent::PlaybackRequestAccepted);
    assert!(matches!(react(phase, other), Err(PublishError::UnexpectedEvent)));
}

#[test]
fn reactions_while_publishing_is_awaited() {
    let phase = Phase::AwaitingPublish;
    assert_eq!(react(phase, SessionEvent::PublishRequestAccepted).unwrap(), Step::PublishMetadata);
    let refused = SessionEvent::ConnectionRequestRejected { description: "x".to_string() };
    assert!(matches!(react(phase, refused), Err(PublishError::UnexpectedEvent)));
    assert!(matches!(
        react(phase, SessionEvent::ConnectionRequestAccepted),
        Err(PublishError::UnexpectedEvent)
    ));
}

#[test]
fn other_phases_ignore_events() {
    for phase in [Phase::Created, Phase::Streaming, Phase::Finished] {
        assert_eq!(react(phase, SessionEvent::PublishRequestAccepted).unwrap(), Step::Ignore);
    }
}

#[test]
fn messages_for_tags() {
    match media_message(tag(TagType::Video, 7, b"v")) {
        Some(MediaMessage::Video { data, timestamp, can_be_dropped }) => {
            assert_eq!((data, timestamp, can_be_dropped), (b"v".to_vec(), 7, false));
        }
        other => panic!("unexpected {:?}", other),
    }
    match media_message(tag(TagType::Audio, u32::MAX, b"a")) {
        Some(MediaMessage::Audio { data, timestamp, can_be_dropped }) => {
            assert_eq!((data, timestamp, can_be_dropped), (b"a".to_vec(), u32::MAX, false));
        }
        other => panic!("unexpected {:?}", other),
    }
    assert!(media_message(tag(TagType::Script, 7, b"s")).is_none());
}

fn packet(bytes: &[u8]) -> SessionResult {
    SessionResult::OutboundResponse(bytes.to_vec())
}

fn raised(code: &str) -> SessionResult {
    SessionResult::RaisedEvent(SessionEvent::ConnectionRequestRejected {
        description: code.to_string(),
    })
}

#[test]
fn results_are_worked_off_in_order() {
    let mut events = VecDeque::new();
    events.push_back(SessionEvent::PublishRequestAccepted);
    let mut actions = VecDeque::from(vec![
        raised("one"),
        packet(b"first"),
        SessionResult::UnhandleableMessageReceived(MessagePayload::new()),
        packet(b"second"),
        raised("two"),
        raised("three"),
    ]);
    assert_eq!(handle_session_results(&mut events, &mut actions).unwrap(), b"first");
    assert_eq!(events.len(), 2);
    assert_eq!(actions.len(), 4);
    assert_eq!(handle_session_results(&mut events, &mut actions).unwrap(), b"second");
    assert_eq!(actions.len(), 2);
    assert!(handle_session_results(&mut events, &mut actions).is_none());
    assert!(actions.is_empty());
    assert!(matches!(events.pop_front(), Some(SessionEvent::PublishRequestAccepted)));
    for expected in ["one", "two", "three"] {
        match events.pop_front() {
            Some(SessionEvent::ConnectionRequestRejected { description }) => {
                assert_eq!(description, expected)
            }
            other => panic!("unexpected {:?}", other),
        }
    }
}

#[test]
fn answers_are_sorted_by_kind() {
    let answers = vec![
        ClientSessionResult::OutboundResponse(Packet {
            bytes: vec![1, 2, 3],
            can_be_dropped: false,
        }),
        ClientSessionResult::RaisedEvent(ClientSessionEvent::ConnectionRequestAccepted),
        ClientSessionResult::RaisedEvent(ClientSessionEvent::ConnectionRequestRejected {
            description: "why".to_string(),
        }),
        ClientSessionResult::RaisedEvent(ClientSessionEvent::PublishRequestAccepted),
        ClientSessionResult::RaisedEvent(ClientSessionEvent::AcknowledgementReceived {
            bytes_received: 4,
        }),
        ClientSessionResult::UnhandleableMessageReceived(MessagePayload::new()),
    ];
    let actions = reply_list(Ok(answers)).unwrap();
    assert_eq!(actions.len(), 6);
    assert!(matches!(&actions[0], SessionResult::OutboundResponse(bytes) if bytes == &[1, 2, 3]));
    assert!(matches!(
        &actions[1],
        SessionResult::RaisedEvent(SessionEvent::ConnectionRequestAccepted)
    ));
    assert!(matches!(
        &actions[2],
        SessionResult::RaisedEvent(SessionEvent::ConnectionRequestRejected { description })
            if description == "why"
    ));
    assert!(matches!(
        &actions[3],
        SessionResult::RaisedEvent(SessionEvent::PublishRequestAccepted)
    ));
    assert!(matches!(
        &actions[4],
        SessionResult::RaisedEvent(SessionEvent::Other(
            ClientSessionEvent::AcknowledgementReceived { bytes_received: 4 }
        ))
    ));
    assert!(matches!(&actions[5], SessionResult::UnhandleableMessageReceived(_)));
}

#[test]
fn errors_of_the_session_are_kept() {
    assert!(matches!(
        reply(Err(ClientSessionError::CreateStreamFailed)),
        Err(PublishError::Session(ClientSessionError::CreateStreamFailed))
    ));
    assert!(matches!(
        reply_list(Err(ClientSessionError::CreateStreamFailed)),
        Err(PublishError::Session(ClientSessionError::CreateStreamFailed))
    ));
}

#[test]
fn handshake_with_a_server() {
    let (mut client, opening) = start_handshake().unwrap();
    assert_eq!(opening.len(), OPENING_LEN);
    assert_eq!(opening[0], 3);
    let mut server = Handshake::new(PeerType::Server);
    let answer = match server.process_bytes(&opening).unwrap() {
        HandshakeProcessResult::InProgress { response_bytes } => response_bytes,
        other => panic!("unexpected {:?}", other),
    };
    let (first, second) = answer.split_at(100);
    let reply = continue_handshake(&mut client, first).unwrap();
    assert!(reply.response.is_empty());
    assert!(reply.leftover.is_none());
    let mut rest = second.to_vec();
    rest.extend_from_slice(b"chunks");
    let reply = continue_handshake(&mut client, &rest).unwrap();
    assert_eq!(reply.leftover.unwrap(), b"chunks");
    assert!(matches!(
        server.process_bytes(&reply.response).unwrap(),
        HandshakeProcessResult::Completed { .. }
    ));
}

#[test]
fn session_gets_what_follows_the_handshake() {
    for size in [1, 7, 1536, 1537, 3073, 5000] {
        let (mut client, opening) = start_handshake().unwrap();
        let mut server = Handshake::new(PeerType::Server);
        let mut sent = match server.process_bytes(&opening).unwrap() {
            HandshakeProcessResult::InProgress { response_bytes } => response_bytes,
            other => panic!("unexpected {:?}", other),
        };
        assert_eq!(sent.len(), SERVER_LEN);
        let follows: Vec<u8> = (0..2000).map(|i| (i % 251) as u8).collect();
        sent.extend_from_slice(&follows);

        let mut reads = sent.chunks(size);
        let mut response = Vec::new();
        let leftover = loop {
            let reply = continue_handshake(&mut client, reads.next().unwrap()).unwrap();
            response.extend(reply.response);
            if let Some(leftover) = reply.leftover {
                break leftover;
            }
        };
        assert_eq!(response.len(), PACKET_LEN);
        let mut passed_on = leftover;
        for read in reads {
            passed_on.extend_from_slice(read);
        }
        assert_eq!(passed_on, follows);
    }
}

#[test]
fn a_finished_handshake_takes_no_more_bytes() {
    let (mut client, opening) = start_handshake().unwrap();
    let mut server = Handshake::new(PeerType::Server);
    let sent = match server.process_bytes(&opening).unwrap() {
        HandshakeProcessResult::InProgress { response_bytes } => response_bytes,
        other => panic!("unexpected {:?}", other),
    };
    assert!(continue_handshake(&mut client, &sent).unwrap().leftover.is_some());
    assert!(matches!(
        continue_handshake(&mut client, &[]),
        Err(PublishError::Handshake(HandshakeError::HandshakeAlreadyCompleted))
    ));
}

#[test]
fn handshake_of_another_version_fails() {
    let (mut client, _) = start_handshake().unwrap();
    assert!(matches!(
        continue_handshake(&mut client, &[6]),
        Err(PublishError::Handshake(HandshakeError::BadVersionId))
    ));
}

#[test]
fn handshake_steps() {
    let reply =
        handshake_reply(Ok(HandshakeStep::InProgress { response_bytes: vec![1] })).unwrap();
    assert_eq!(reply.response, vec![1]);
    assert!(reply.leftover.is_none());
    let done = HandshakeStep::Completed { response_bytes: vec![2], remaining_bytes: vec![] };
    let reply = handshake_reply(Ok(done)).unwrap();
    assert_eq!(reply.response, vec![2]);
    assert_eq!(reply.leftover, Some(vec![]));
    assert!(matches!(
        handshake_reply(Err(HandshakeError::BadVersionId)),
        Err(PublishError::Handshake(HandshakeError::BadVersionId))
    ));
}

#[test]
fn the_oldest_event_comes_first() {
    let (mut publisher, _) = Publisher::new("a".to_string(), "k".to_string()).unwrap();
    let mut actions = VecDeque::from(vec![raised("old"), raised("new")]);
    assert!(publisher.next_packet(&mut actions).is_none());
    for expected in ["old", "new"] {
        match publisher.wait_event() {
            Wait::Event(SessionEvent::ConnectionRequestRejected { description }) => {
                assert_eq!(description, expected)
            }
            other => panic!("unexpected {:?}", other),
        }
    }
    assert!(matches!(publisher.wait_event(), Wait::Receive));
}
