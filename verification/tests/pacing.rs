use bytes::BytesMut;
use flv_publisher::flv::{TagHeader, TagType};
use flv_publisher::inbound::{after_read, take_chunk};
use flv_publisher::pacing::{delay_nanos, rtmp_timestamp, timed_tag};

#[test]
fn early_tags_wait() {
    assert_eq!(delay_nanos(1000, 0), Some(1_000_000_000));
    assert_eq!(delay_nanos(40, 39_999_999), Some(1));
    assert_eq!(delay_nanos(u32::MAX, 0), Some(4_294_967_295_000_000));
}

#[test]
fn due_tags_go_at_once() {
    assert_eq!(delay_nanos(0, 0), None);
    assert_eq!(delay_nanos(40, 40_000_000), None);
    assert_eq!(delay_nanos(40, u128::MAX), None);
}

#[test]
fn tags_are_released_when_due() {
    for elapsed in [0u128, 5_000_000, 10_000_000, 20_000_000] {
        let released = elapsed + delay_nanos(10, elapsed).unwrap_or(0) as u128;
        assert_eq!(released, elapsed.max(10_000_000));
    }
}

#[test]
fn tag_keeps_its_timestamp() {
    let header =
        TagHeader { tag_type: TagType::Audio, data_size: 2, timestamp: 4_000_000_000, stream_id: 0 };
    let tag = timed_tag(header, vec![1, 2]);
    assert_eq!(tag.offset_ms, 4_000_000_000);
    assert_eq!(tag.header, header);
    assert_eq!(tag.data, vec![1, 2]);
    assert_eq!(rtmp_timestamp(tag.offset_ms), header.timestamp);
}

#[test]
fn rtmp_timestamps_wrap() {
    assert_eq!(rtmp_timestamp(0x1_0000_0000), 0);
    assert_eq!(rtmp_timestamp(0x1_0000_0005), 5);
}

#[test]
fn a_read_is_passed_on_whole() {
    let mut buffer = BytesMut::with_capacity(64);
    buffer.extend_from_slice(b"hello");
    let (chunk, rest) = take_chunk(buffer, 5).unwrap();
    assert_eq!(&chunk[..], b"hello");
    assert_eq!(rest.len(), 0);
}

#[test]
fn what_was_not_read_stays() {
    let (chunk, rest) = take_chunk(BytesMut::from(&b"hello world"[..]), 5).unwrap();
    assert_eq!(&chunk[..], b"hello");
    assert_eq!(&rest[..], b" world");
}

#[test]
fn a_read_beyond_the_buffer_takes_all() {
    let (chunk, rest) = take_chunk(BytesMut::from(&b"abc"[..]), 9).unwrap();
    assert_eq!(&chunk[..], b"abc");
    assert_eq!(rest.len(), 0);
}

#[test]
fn a_read_of_nothing_is_the_end() {
    assert!(take_chunk(BytesMut::from(&b"abc"[..]), 0).is_none());
}

#[test]
fn chunks_are_the_reads() {
    let reads: [&[u8]; 4] = [b"one", b"two", b"", b"after"];
    let mut buffer = BytesMut::with_capacity(4);
    let mut chunks: Vec<Vec<u8>> = Vec::new();
    for read in reads {
        buffer.extend_from_slice(read);
        match after_read::<()>(buffer, Ok(read.len())).unwrap() {
            None => break,
            Some((chunk, rest)) => {
                chunks.push(chunk.to_vec());
                buffer = rest;
            }
        }
    }
    assert_eq!(chunks, vec![b"one".to_vec(), b"two".to_vec()]);
}

#[test]
fn a_failed_read_is_an_error() {
    let buffer = BytesMut::from(&b"abc"[..]);
    assert_eq!(after_read(buffer, Err("reset")).unwrap_err(), "reset");
}
