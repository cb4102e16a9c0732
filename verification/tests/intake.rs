use flv_publisher::amf::handleable;
use flv_publisher::chunks::Chunks;
use flv_publisher::error::PublishError;
use flv_publisher::intake::Intake;
use flv_publisher::publisher::{Next, Phase, Publisher};
use flv_publisher::session::{SessionEvent, SessionResult};
use rml_rtmp::sessions::{ServerSession, ServerSessionConfig, ServerSessionResult};

fn publisher() -> Publisher {
    Publisher::new("app".to_string(), "key".to_string()).unwrap().0
}

/// A message in one chunk with a full header.
fn message(type_id: u8, data: &[u8]) -> Vec<u8> {
    let len = (data.len() as u32).to_be_bytes();
    let mut bytes = vec![3, 0, 0, 0, len[1], len[2], len[3], type_id, 0, 0, 0, 0];
    bytes.extend_from_slice(data);
    bytes
}

fn is_unreadable(publisher: &mut Publisher, bytes: &[u8]) -> bool {
    matches!(publisher.receive(Some(bytes)), Err(PublishError::Unreadable))
}

/// Arrays in arrays, so many of them.
fn nested(depth: usize) -> Vec<u8> {
    let mut data = Vec::new();
    for _ in 0..depth {
        data.extend_from_slice(&[10, 0, 0, 0, 1]);
    }
    data
}

#[test]
fn commands_have_three_values() {
    for type_id in [17, 20] {
        assert!(!handleable(type_id, &[]));
        assert!(!handleable(type_id, &[5]));
        assert!(!handleable(type_id, &[5, 6]));
        assert!(handleable(type_id, &[5, 5, 5]));
        assert!(!handleable(type_id, &[5, 5, 9, 5]));
        assert!(handleable(type_id, &[5, 4]));
        assert!(handleable(type_id, &[5, 1, 7, 5]));
    }
    assert!(handleable(17, &[0, 5, 5, 5]));
    assert!(!handleable(17, &[0, 5, 5]));
    assert!(handleable(20, &[0, 5, 5, 5]));
    assert!(handleable(18, &[]));
    assert!(handleable(15, &[5]));
    assert!(handleable(9, &[]));
}

#[test]
fn values_of_every_kind() {
    let number = [0, 1, 2, 3, 4, 5, 6, 7, 8];
    let text = [2, 0, 2, b'o', b'k'];
    let object = [3, 0, 1, b'a', 5, 0, 0, 9];
    let ecma = [8, 0, 0, 0, 7, 0, 1, b'a', 5, 0, 0, 9];
    let array = [10, 0, 0, 0, 2, 5, 6];
    for value in [&number[..], &text[..], &object[..], &ecma[..], &array[..]] {
        let mut data = value.to_vec();
        data.extend_from_slice(&[5]);
        assert!(!handleable(20, &data), "{:?}", data);
        data.extend_from_slice(&[5]);
        assert!(handleable(20, &data), "{:?}", data);
        for end in 1..value.len() {
            let cut = &value[..end];
            let text_or_array_that_ends = (cut[0] == 2 && end >= 3) || (cut[0] == 10 && end >= 5);
            assert_eq!(handleable(20, cut), !text_or_array_that_ends, "{:?}", cut);
        }
    }
}

#[test]
fn texts_that_are_no_utf8_are_no_values() {
    assert!(handleable(20, &[2, 0, 1, 0xff]));
    assert!(handleable(20, &[3, 0, 1, 0xff, 5, 0, 0, 9]));
    assert!(!handleable(20, &[2, 0, 2, 0xc3, 0xa4]));
    assert!(handleable(20, &[2, 0, 2, 0xc3]));
}

#[test]
fn nesting_has_an_end() {
    assert!(handleable(18, &nested(511)));
    assert!(!handleable(18, &nested(512)));
    assert!(!handleable(15, &nested(1_000_000)));
    assert!(!handleable(20, &nested(1_000_000)));
    let mut command = vec![5, 5];
    command.extend(nested(511));
    assert!(handleable(20, &command));
}

#[test]
fn nested_values_within_bounds_are_read() {
    let mut publisher = publisher();
    assert!(publisher.receive(Some(&message(1, &[0, 1, 0, 0]))).is_ok());
    let mut command = vec![2, 0, 0, 0, 0, 0, 0, 0, 0, 0, 0, 0];
    command.extend(nested(511));
    let actions = publisher.receive(Some(&message(20, &command))).unwrap();
    assert_eq!(actions.len(), 1);
    command.extend_from_slice(&[10, 0, 0, 0, 1]);
    assert!(is_unreadable(&mut publisher, &message(20, &command)));
}

#[test]
fn every_kind_of_nesting_is_read() {
    let object: &[u8] = &[3, 0, 1, b'a'];
    let ecma: &[u8] = &[8, 0, 0, 0, 1, 0, 1, b'a'];
    for opening in [object, ecma] {
        let mut publisher = publisher();
        assert!(publisher.receive(Some(&message(1, &[0, 1, 0, 0]))).is_ok());
        let mut command = vec![2, 0, 0, 0, 0, 0, 0, 0, 0, 0, 0, 0];
        for _ in 0..511 {
            command.extend_from_slice(opening);
        }
        command.push(5);
        for _ in 0..511 {
            command.extend_from_slice(&[0, 0, 9]);
        }
        let actions = publisher.receive(Some(&message(20, &command))).unwrap();
        assert_eq!(actions.len(), 1);
    }
}

#[test]
fn windows_come_and_go() {
    let mut intake = Intake::new();
    assert!(intake.take_in(&message(5, &[0xff, 0xff, 0xff, 0xff])));
    intake.catch_up();
    assert!(intake.take_in(&message(5, &[0, 0, 0, 9])));
    intake.catch_up();
    for _ in 0..1_000 {
        assert!(intake.take_in(&message(3, &[0; 100])));
        intake.catch_up();
    }
    assert!(intake.take_in(&message(5, &[0xff, 0xff, 0xff, 0xff])));
    assert!(intake.take_in(&message(3, &[0; 100])));
    assert!(!intake.take_in(&message(20, &[])));
}

#[test]
fn an_empty_command_is_unreadable() {
    let bytes = [3, 0, 0, 0, 0, 0, 0, 20, 0, 0, 0, 0];
    let mut publisher = publisher();
    let error = publisher.receive(Some(&bytes)).unwrap_err();
    assert!(matches!(error, PublishError::Unreadable));
    assert_eq!(error.message().unwrap(), "Server sent what cannot be read");
    assert!(is_unreadable(&mut publisher, &[]));
    assert!(is_unreadable(&mut publisher, &message(3, &[0, 0, 0, 1])));
    assert!(matches!(publisher.receive(None), Err(PublishError::Disconnected)));
}

#[test]
fn a_short_command_is_unreadable_however_it_is_cut() {
    let bytes = message(20, &[5]);
    for cut in 0..bytes.len() {
        let mut publisher = publisher();
        assert!(publisher.receive(Some(&bytes[..cut])).is_ok());
        assert!(is_unreadable(&mut publisher, &bytes[cut..]));
    }
}

#[test]
fn a_message_cannot_get_shorter() {
    let mut publisher = publisher();
    let mut first = vec![3, 0, 0, 0, 0, 0, 200, 3, 0, 0, 0, 0];
    first.extend([0; 128]);
    assert!(publisher.receive(Some(&first)).is_ok());
    assert!(publisher.receive(Some(&[4, 0, 0, 0, 0, 0, 100, 3, 0, 0, 0])).is_ok());
    assert!(is_unreadable(&mut publisher, &[0]));
}

#[test]
fn an_extended_timestamp_is_not_small() {
    let full = [3, 0xff, 0xff, 0xff, 0, 0, 4, 3, 0, 0, 0, 0, 0, 0, 0, 5, 0, 0, 0, 1];
    let mut publisher_one = publisher();
    assert!(publisher_one.receive(Some(&full)).is_ok());
    let large = [0xc3, 1, 0, 0, 0, 0, 0, 0, 1];
    assert!(publisher_one.receive(Some(&large)).is_ok());
    assert!(is_unreadable(&mut publisher_one, &[0xc3, 0, 0xff, 0xff, 0xfe]));
    let mut publisher_two = publisher();
    assert!(publisher_two.receive(Some(&full)).is_ok());
    assert!(publisher_two.receive(Some(&[0xc3, 0, 0xff, 0xff, 0xff])).is_ok());
}

#[test]
fn a_header_that_refers_to_nothing_is_refused_for_good() {
    let mut publisher = publisher();
    for _ in 0..3 {
        assert!(matches!(publisher.receive(Some(&[0xc3])), Err(PublishError::Session(_))));
        let bytes = message(20, &[]);
        assert!(matches!(publisher.receive(Some(&bytes)), Err(PublishError::Session(_))));
    }
}

#[test]
fn the_session_goes_on_behind_a_message_that_it_refuses() {
    let mut publisher = publisher();
    let refused = message(9, b"video");
    let ack = message(3, &[0, 0, 0, 7]);
    let mut bytes = refused.clone();
    bytes.extend_from_slice(&ack);
    assert!(matches!(publisher.receive(Some(&bytes)), Err(PublishError::Session(_))));
    let actions = publisher.receive(Some(&ack[..5])).unwrap();
    assert_eq!(actions.len(), 1);
    let actions = publisher.receive(Some(&ack[5..])).unwrap();
    assert_eq!(actions.len(), 1);
    assert!(matches!(actions[0], SessionResult::RaisedEvent(SessionEvent::Other(_))));
    bytes.extend(message(20, &[]));
    assert!(is_unreadable(&mut publisher, &bytes));
}

#[test]
fn chunks_may_get_longer() {
    let mut publisher = publisher();
    let mut long = message(18, &[5; 300]);
    let mut bytes = message(1, &[0, 0, 1, 44]);
    bytes.append(&mut long);
    assert!(publisher.receive(Some(&bytes)).is_ok());
    assert!(is_unreadable(&mut publisher, &message(20, &[])));
}

#[test]
fn windows_are_told() {
    let mut chunks = Chunks::new();
    assert_eq!(chunks.feed(&message(5, &[0, 0, 1, 0])), Some(vec![256]));
    assert_eq!(chunks.feed(&message(3, &[0, 0, 1, 0])), Some(vec![]));
    let mut both = message(5, &[0, 0, 0, 9]);
    both.extend(message(5, &[0, 0, 0, 8]));
    assert_eq!(chunks.feed(&both), Some(vec![9, 8]));
    assert_eq!(chunks.feed(&message(20, &[])), None);
}

#[test]
fn acknowledgements_go_out() {
    let mut publisher = publisher();
    assert!(publisher.receive(Some(&message(5, &[0, 0, 0, 20]))).unwrap().is_empty());
    for _ in 0..10 {
        let actions = publisher.receive(Some(&message(2, &[0, 0, 0, 9]))).unwrap();
        assert_eq!(actions.len(), 1);
        let actions = publisher.receive(Some(&message(2, &[0; 9]))).unwrap();
        assert!(matches!(actions[0], SessionResult::OutboundResponse(_)));
    }
}

#[test]
fn a_cut_does_not_matter() {
    let mut bytes = message(5, &[0, 0, 1, 0]);
    bytes.extend(message(20, &[5, 5, 5]));
    bytes.extend_from_slice(&[0xc3, 5, 5, 5, 0x83, 0, 0, 1, 5, 5]);
    for cut in 0..=bytes.len() {
        let mut intake = Intake::new();
        assert!(intake.take_in(&bytes[..cut]));
        assert!(intake.take_in(&bytes[cut..]));
        assert!(!intake.take_in(&[9]));
    }
}

#[test]
fn what_a_server_says_is_readable() {
    let (_, results) = ServerSession::new(ServerSessionConfig::new()).unwrap();
    let mut greeting = Vec::new();
    for result in results {
        if let ServerSessionResult::OutboundResponse(packet) = result {
            greeting.extend(packet.bytes);
        }
    }
    assert!(!greeting.is_empty());
    for size in [1, 2, 5, 1000] {
        let mut publisher = publisher();
        for piece in greeting.chunks(size) {
            publisher.receive(Some(piece)).unwrap();
        }
    }
}

#[test]
fn what_is_taken_never_panics() {
    let mut state: u32 = 1;
    let mut next = || {
        state = state.wrapping_mul(1_664_525).wrapping_add(1_013_904_223);
        (state >> 16) as u8
    };
    let types = [1, 2, 3, 4, 5, 6, 8, 9, 15, 17, 18, 20, 22];
    let kinds = [0, 1, 2, 3, 5, 5, 6, 8, 9, 10, 0xff];
    let mut taken = 0;
    let mut turned_down = 0;
    for _ in 0..20_000 {
        let mut publisher = publisher();
        for _ in 0..6 {
            let format = if next() % 3 == 0 { next() % 4 } else { 0 };
            let mut bytes = vec![format * 64 + 3 + next() % 2];
            if format < 3 {
                let high = if next() % 8 == 0 { 0xff } else { 0 };
                bytes.extend_from_slice(&[high, high, high]);
            }
            let len = next() % 24;
            if format < 2 {
                bytes.extend_from_slice(&[0, 0, len, types[next() as usize % types.len()]]);
            }
            if format < 1 {
                bytes.extend_from_slice(&[0, 0, 0, 0]);
            }
            for _ in 0..len {
                let kind = kinds[next() as usize % kinds.len()];
                bytes.push(if next() % 2 == 0 { kind } else { next() % 4 });
            }
            match publisher.receive(Some(&bytes)) {
                Err(PublishError::Unreadable) => {
                    turned_down += 1;
                    break;
                }
                _ => taken += 1,
            }
        }
    }
    assert!(taken > 1_000);
    assert!(turned_down > 1_000);
}

#[test]
fn starting_hands_the_leftover_over() {
    let ack = message(3, &[0, 0, 0, 7]);
    let (publisher, actions) =
        Publisher::start("app".to_string(), "key".to_string(), &ack).unwrap();
    assert_eq!(actions.len(), 1);
    assert!(matches!(actions[0], SessionResult::RaisedEvent(SessionEvent::Other(_))));
    assert_eq!(publisher.phase(), Phase::Created);
    assert_eq!(publisher.next(), Next::RequestConnection);
    assert!(matches!(
        Publisher::start("app".to_string(), "key".to_string(), &message(9, b"x")),
        Err(PublishError::Session(_))
    ));
    assert!(matches!(
        Publisher::start("app".to_string(), "key".to_string(), &message(20, b"")),
        Err(PublishError::Unreadable)
    ));
}

#[test]
fn requests_that_cannot_be_counted_have_a_text() {
    assert_eq!(PublishError::TooManyRequests.message().unwrap(), "Too many requests");
}

#[test]
fn a_failed_wait_is_fatal_while_an_answer_is_awaited() {
    let mut publisher = publisher();
    assert!(!publisher.wait_failure_is_fatal());
    publisher.request_connection().unwrap();
    assert!(publisher.wait_failure_is_fatal());
    publisher.finish().unwrap();
    assert!(!publisher.wait_failure_is_fatal());
}
