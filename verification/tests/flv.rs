use flv_publisher::flv::{header, tag_header, FlvError, Header, TagHeader, TagType};
use flv_publisher::pacing::timed_tag;
use flv_publisher::publisher::{media_message, MediaMessage};
use flv_publisher::flv_reader::{
    tag_prefix, FlvReader, TagPrefix, PREVIOUS_TAG_SIZE_LEN, TAG_PREFIX_LEN,
};

/// The header of a tag, as a file holds it.
fn tag_header_bytes(kind: u8, data_size: u32, timestamp: u32, stream_id: u32) -> Vec<u8> {
    let size = data_size.to_be_bytes();
    let time = timestamp.to_be_bytes();
    let stream = stream_id.to_be_bytes();
    vec![
        kind, size[1], size[2], size[3], time[1], time[2], time[3], time[0], stream[1], stream[2],
        stream[3],
    ]
}

/// A whole tag, as a file holds it.
fn tag_bytes(previous: u32, kind: u8, timestamp: u32, data: &[u8]) -> Vec<u8> {
    let mut bytes = previous.to_be_bytes().to_vec();
    bytes.extend(tag_header_bytes(kind, data.len() as u32, timestamp, 0));
    bytes.extend_from_slice(data);
    bytes
}

#[test]
fn header_with_audio_and_video() {
    let bytes = [0x46, 0x4c, 0x56, 1, 5, 0, 0, 0, 9];
    let expected = Header { version: 1, audio: true, video: true, offset: 9 };
    assert_eq!(header(&bytes), Ok(expected));
}

#[test]
fn header_flags_are_read_one_by_one() {
    let audio_only = [b'F', b'L', b'V', 2, 4, 0, 0, 0, 9];
    let video_only = [b'F', b'L', b'V', 2, 1, 0, 0, 0, 9];
    let other_bits = [b'F', b'L', b'V', 2, 0xfa, 0, 0, 0, 9];
    assert_eq!(header(&audio_only), Ok(Header { version: 2, audio: true, video: false, offset: 9 }));
    assert_eq!(header(&video_only), Ok(Header { version: 2, audio: false, video: true, offset: 9 }));
    assert_eq!(
        header(&other_bits),
        Ok(Header { version: 2, audio: false, video: false, offset: 9 })
    );
}

#[test]
fn header_offset_is_big_endian() {
    let bytes = [b'F', b'L', b'V', 1, 0, 0x12, 0x34, 0x56, 0x78, 0xff];
    assert_eq!(header(&bytes).unwrap().offset, 0x1234_5678);
}

#[test]
fn header_needs_signature_and_nine_bytes() {
    assert_eq!(header(b"FLV\x01\x05\x00\x00\x00"), Err(FlvError::Incomplete));
    assert_eq!(header(b"FLX\x01\x05\x00\x00\x00\x09"), Err(FlvError::BadSignature));
    assert_eq!(header(b"XLV\x01\x05\x00\x00\x00\x09"), Err(FlvError::BadSignature));
    assert_eq!(header(b"FXV\x01\x05\x00\x00\x00\x09"), Err(FlvError::BadSignature));
}

#[test]
fn tag_header_fields() {
    let bytes = tag_header_bytes(9, 0x0a0b0c, 0x01020304, 0x0d0e0f);
    let expected = TagHeader {
        tag_type: TagType::Video,
        data_size: 0x0a0b0c,
        timestamp: 0x01020304,
        stream_id: 0x0d0e0f,
    };
    assert_eq!(tag_header(&bytes), Ok(expected));
}

#[test]
fn tag_types() {
    assert_eq!(tag_header(&tag_header_bytes(8, 1, 2, 0)).unwrap().tag_type, TagType::Audio);
    assert_eq!(tag_header(&tag_header_bytes(9, 1, 2, 0)).unwrap().tag_type, TagType::Video);
    assert_eq!(tag_header(&tag_header_bytes(18, 1, 2, 0)).unwrap().tag_type, TagType::Script);
    assert_eq!(tag_header(&tag_header_bytes(10, 1, 2, 0)), Err(FlvError::UnknownTagType(10)));
}

#[test]
fn tag_header_needs_eleven_bytes() {
    let bytes = tag_header_bytes(8, 1, 2, 0);
    assert_eq!(tag_header(&bytes[..10]), Err(FlvError::Incomplete));
}

#[test]
fn tag_header_bytes_differ_where_headers_differ() {
    let first = tag_header_bytes(9, 5, 0x0100_0000, 0);
    let second = tag_header_bytes(9, 5, 1, 0);
    assert_ne!(first, second);
    assert_ne!(tag_header(&first), tag_header(&second));
}

#[test]
fn tag_prefix_has_the_size_of_the_previous_tag() {
    let bytes = tag_bytes(0x0102_0304, 8, 40, b"");
    let expected = TagPrefix {
        previous_tag_size: 0x0102_0304,
        header: TagHeader { tag_type: TagType::Audio, data_size: 0, timestamp: 40, stream_id: 0 },
    };
    assert_eq!(bytes.len(), TAG_PREFIX_LEN);
    assert_eq!(tag_prefix(&bytes), Ok(expected));
}

#[test]
fn tag_prefix_that_is_cut_short() {
    let bytes = tag_bytes(0, 8, 40, b"");
    assert_eq!(tag_prefix(&bytes[..PREVIOUS_TAG_SIZE_LEN - 1]), Err(FlvError::Incomplete));
    assert_eq!(tag_prefix(&bytes[..TAG_PREFIX_LEN - 1]), Err(FlvError::Incomplete));
}

#[test]
fn reader_starts_at_the_offset_of_the_header() {
    let mut reader = FlvReader::new();
    assert_eq!(reader.read_header(b"FLV\x01\x05\x00\x00\x00\x0d"), 13);
}

#[test]
fn reader_makes_room_for_the_data() {
    let mut reader = FlvReader::new();
    let prefix = tag_bytes(7, 9, 33, b"abc")[..TAG_PREFIX_LEN].to_vec();
    let (header, buffer) = reader.read_tag(prefix.clone()).unwrap();
    assert_eq!(header.data_size, 3);
    assert_eq!(buffer.len(), TAG_PREFIX_LEN + 3);
    assert_eq!(&buffer[..TAG_PREFIX_LEN], &prefix[..]);
    assert_eq!(&buffer[TAG_PREFIX_LEN..], &[0, 0, 0]);
}

#[test]
fn reader_rejects_an_unknown_tag() {
    let mut reader = FlvReader::new();
    let prefix = tag_bytes(0, 77, 0, b"");
    assert_eq!(reader.read_tag(prefix), Err(FlvError::UnknownTagType(77)));
}

#[test]
fn tags_of_a_file_are_contiguous() {
    let mut file = b"FLV\x01\x05\x00\x00\x00\x09".to_vec();
    file.extend(tag_bytes(0, 18, 0, b"metadata"));
    file.extend(tag_bytes(19, 9, 0, b"key frame"));
    file.extend(tag_bytes(20, 8, 23, b"sound"));

    let mut reader = FlvReader::new();
    assert!(header(&file).is_ok());
    let start = reader.read_header(&file[..9]) as usize;
    let mut pos = start;
    let mut types = Vec::new();
    let mut all = Vec::new();
    while pos < file.len() {
        let prefix = file[pos..pos + TAG_PREFIX_LEN].to_vec();
        let (header, mut buffer) = reader.read_tag(prefix).unwrap();
        let end = pos + buffer.len();
        buffer[TAG_PREFIX_LEN..].copy_from_slice(&file[pos + TAG_PREFIX_LEN..end]);
        assert_eq!(&buffer[..], &file[pos..end]);
        types.push(header.tag_type);
        all.extend(buffer);
        pos = end;
    }
    assert_eq!(types, vec![TagType::Script, TagType::Video, TagType::Audio]);
    assert_eq!(&all[..], &file[start..]);
}

#[test]
fn longest_tag_does_not_fit_a_message() {
    let mut reader = FlvReader::new();
    let prefix = [0, 0, 0, 0, 9, 0xff, 0xff, 0xff, 0, 0, 0, 0, 0, 0, 0];
    let (header, buffer) = reader.read_tag(prefix.to_vec()).unwrap();
    assert_eq!(header.data_size, 16_777_215);
    assert_eq!(buffer.len(), 16_777_230);
    assert!(buffer.len() > flv_publisher::session::MAX_MESSAGE_LEN);
}

#[test]
fn a_file_is_published_in_order() {
    let mut file = b"FLV\x01\x05\x00\x00\x00\x0b??".to_vec();
    file.extend(tag_bytes(0, 18, 0, b"metadata"));
    file.extend(tag_bytes(19, 9, 0, b"key"));
    file.extend(tag_bytes(14, 8, 7, b"sound"));
    file.extend(tag_bytes(16, 9, 40, b""));
    file.extend_from_slice(&tag_bytes(11, 9, 80, b"cut off")[..18]);

    let mut reader = FlvReader::new();
    let mut pos = reader.read_header(&file[..9]) as usize;
    let mut handed_out = Vec::new();
    let mut published = Vec::new();
    while pos + TAG_PREFIX_LEN <= file.len() {
        let prefix = file[pos..pos + TAG_PREFIX_LEN].to_vec();
        let (header, mut buffer) = reader.read_tag(prefix).unwrap();
        let end = pos + buffer.len();
        if end > file.len() {
            break;
        }
        buffer[TAG_PREFIX_LEN..].copy_from_slice(&file[pos + TAG_PREFIX_LEN..end]);
        pos = end;
        let tag = timed_tag(header, buffer);
        handed_out.push((tag.offset_ms, tag.data.len()));
        match media_message(tag) {
            Some(MediaMessage::Video { data, timestamp, .. }) => published.push((9, data, timestamp)),
            Some(MediaMessage::Audio { data, timestamp, .. }) => published.push((8, data, timestamp)),
            None => {}
        }
    }
    assert_eq!(handed_out, vec![(0, 23), (0, 18), (7, 20), (40, 15)]);
    assert_eq!(
        published,
        vec![
            (9, tag_bytes(19, 9, 0, b"key"), 0),
            (8, tag_bytes(14, 8, 7, b"sound"), 7),
            (9, tag_bytes(16, 9, 40, b""), 40),
        ]
    );
}
