//! Reading an FLV file piece by piece.
//!
//! The reader does no I/O of its own. Its caller fetches the bytes that are asked for and hands
//! them in; what comes back says where to go on, or how much to fetch next.
use crate::be::{be_u32, be_value, law_be_value_digits, lemma_be_value_bound};
use crate::flv::{
    header, header_of, law_tag_header_numbers, law_tag_header_says_what_its_bytes_say, tag_header,
    tag_header_of, FlvError, TagHeader, TagType,
};
use crate::session::MAX_MESSAGE_LEN;
use vstd::prelude::*;
use vstd::slice::slice_subrange;

verus! {

/// The length of the size field in front of each tag header.
pub const PREVIOUS_TAG_SIZE_LEN: usize = 4;

/// How many bytes have to be read before the size of a tag is known.
pub const TAG_PREFIX_LEN: usize = 15;

/// What stands in front of the data of a tag.
#[derive(Clone, Copy, Debug, PartialEq, Eq, Structural)]
pub struct TagPrefix {
    /// The size of the tag before this one.
    pub previous_tag_size: u32,
    pub header: TagHeader,
}

/// The prefix in the first bytes of `input`: four bytes with the size of the previous tag, then
/// the tag header.
pub open spec fn tag_prefix_of(input: Seq<u8>) -> Result<TagPrefix, FlvError> {
    if input.len() < PREVIOUS_TAG_SIZE_LEN {
        Err(FlvError::Incomplete)
    } else {
        match tag_header_of(input.skip(PREVIOUS_TAG_SIZE_LEN as int)) {
            Ok(header) => Ok(
                TagPrefix { previous_tag_size: be_value(input.take(4)) as u32, header },
            ),
            Err(error) => Err(error),
        }
    }
}

/// Reads the prefix in the first bytes of `input`.
pub fn tag_prefix(input: &[u8]) -> (prefix: Result<TagPrefix, FlvError>)
    ensures
        prefix == tag_prefix_of(input@),
{
    match be_u32(input) {
        None => Err(FlvError::Incomplete),
        Some(previous_tag_size) => {
            let rest = slice_subrange(input, PREVIOUS_TAG_SIZE_LEN, input.len());
            assert(rest@ =~= input@.skip(PREVIOUS_TAG_SIZE_LEN as int));
            match tag_header(rest) {
                Ok(header) => Ok(TagPrefix { previous_tag_size, header }),
                Err(error) => Err(error),
            }
        },
    }
}

/// A reader of one FLV file.
#[derive(Debug)]
pub struct FlvReader {
    has_video: bool,
    has_audio: bool,
}

impl FlvReader {
    /// Whether the file header has announced video.
    pub closed spec fn has_video(&self) -> bool {
        self.has_video
    }

    /// Whether the file header has announced audio.
    pub closed spec fn has_audio(&self) -> bool {
        self.has_audio
    }

    /// A reader that has seen nothing of the file yet.
    pub fn new() -> (reader: FlvReader)
        ensures
            !reader.has_video(),
            !reader.has_audio(),
    {
        FlvReader { has_audio: false, has_video: false }
    }

    /// Takes the file header in and says where the first tag starts. The bytes have to be a file
    /// header, which `header` tells.
    pub fn read_header(&mut self, bytes: &[u8]) -> (start: u64)
        requires
            header_of(bytes@) is Ok,
        ensures
            final(self).has_audio() == header_of(bytes@)->Ok_0.audio,
            final(self).has_video() == header_of(bytes@)->Ok_0.video,
            start == header_of(bytes@)->Ok_0.offset,
    {
        match header(bytes) {
            Ok(header) => {
                self.has_audio = header.audio;
                self.has_video = header.video;
                header.offset as u64
            },
            Err(_) => 0,
        }
    }

    /// Takes the prefix of a tag in and makes room for its data: what comes back is the header and
    /// a buffer that starts with the prefix and is to be filled behind it from the file.
    pub fn read_tag(&mut self, prefix: Vec<u8>) -> (tag: Result<(TagHeader, Vec<u8>), FlvError>)
        requires
            prefix@.len() == TAG_PREFIX_LEN,
        ensures
            *final(self) == *old(self),
            match tag_prefix_of(prefix@) {
                Ok(front) => tag matches Ok((header, buffer)) && header == front.header && buffer@
                    == prefix@ + Seq::new(front.header.data_size as nat, |i: int| 0u8),
                Err(error) => tag == Err::<(TagHeader, Vec<u8>), FlvError>(error),
            },
    {
        match tag_prefix(prefix.as_slice()) {
            Ok(front) => {
                proof {
                    lemma_be_value_bound(
                        prefix@.skip(PREVIOUS_TAG_SIZE_LEN as int).subrange(1, 4),
                    );
                }
                let mut buffer = prefix;
                buffer.resize(TAG_PREFIX_LEN + front.header.data_size as usize, 0u8);
                assert(buffer@ =~= prefix@ + Seq::new(
                    front.header.data_size as nat,
                    |i: int| 0u8,
                ));
                Ok((front.header, buffer))
            },
            Err(error) => Err(error),
        }
    }
}

/// The tag that starts at `pos` in a file, whole: its header, and its bytes from the size of the
/// previous tag on. `None` where there is no tag, or not all of it.
pub open spec fn tag_at(file: Seq<u8>, pos: int) -> Option<(TagHeader, Seq<u8>)> {
    if pos + TAG_PREFIX_LEN > file.len() {
        None
    } else {
        match tag_prefix_of(file.subrange(pos, pos + TAG_PREFIX_LEN)) {
            Ok(front) => {
                let end = pos + TAG_PREFIX_LEN + front.header.data_size;
                if end > file.len() {
                    None
                } else {
                    Some((front.header, file.subrange(pos, end)))
                }
            },
            Err(_) => None,
        }
    }
}

/// The tags from `pos` on, up to the first place where there is none.
pub open spec fn tags_from(file: Seq<u8>, pos: int) -> Seq<(TagHeader, Seq<u8>)>
    decreases file.len() - pos,
    when 0 <= pos
{
    match tag_at(file, pos) {
        Some(tag) => seq![tag] + tags_from(file, pos + tag.1.len()),
        None => Seq::empty(),
    }
}

/// The bytes of a list of tags, one after the other.
pub open spec fn bytes_of(tags: Seq<(TagHeader, Seq<u8>)>) -> Seq<u8>
    decreases tags.len(),
{
    if tags.len() == 0 {
        Seq::empty()
    } else {
        tags[0].1 + bytes_of(tags.skip(1))
    }
}

/// A buffer that `read_tag` hands out for a prefix from the file, once it is filled with what
/// follows that prefix in the file, is the tag at that place.
pub proof fn law_filled_buffer_is_the_tag(
    file: Seq<u8>,
    pos: int,
    front: TagPrefix,
    buffer: Seq<u8>,
    filled: Seq<u8>,
)
    requires
        0 <= pos,
        pos + TAG_PREFIX_LEN <= file.len(),
        tag_prefix_of(file.subrange(pos, pos + TAG_PREFIX_LEN)) == Ok::<TagPrefix, FlvError>(front),
        buffer == file.subrange(pos, pos + TAG_PREFIX_LEN) + Seq::new(
            front.header.data_size as nat,
            |i: int| 0u8,
        ),
        pos + buffer.len() <= file.len(),
        filled == buffer.take(TAG_PREFIX_LEN as int) + file.subrange(
            pos + TAG_PREFIX_LEN,
            pos + buffer.len(),
        ),
    ensures
        tag_at(file, pos) == Some((front.header, filled)),
{
    assert(filled =~= file.subrange(pos, pos + buffer.len()));
}

/// Tags lie in the file without gaps: their bytes, one after the other, are the file from where the
/// first starts.
pub proof fn law_tags_are_contiguous(file: Seq<u8>, pos: int)
    requires
        0 <= pos <= file.len(),
    ensures
        pos + bytes_of(tags_from(file, pos)).len() <= file.len(),
        bytes_of(tags_from(file, pos)) == file.subrange(
            pos,
            pos + bytes_of(tags_from(file, pos)).len(),
        ),
    decreases file.len() - pos,
{
    let tags = tags_from(file, pos);
    match tag_at(file, pos) {
        Some(tag) => {
            let next = pos + tag.1.len();
            law_tags_are_contiguous(file, next);
            assert(tags.skip(1) =~= tags_from(file, next));
            assert(bytes_of(tags) =~= file.subrange(pos, pos + bytes_of(tags).len()));
        },
        None => {
            assert(bytes_of(tags) =~= file.subrange(pos, pos));
        },
    }
}

/// A tag with its prefix fits in one message of the session unless its data takes up nearly all
/// that three bytes can count.
pub proof fn law_when_a_tag_fits_a_message(prefix: Seq<u8>)
    requires
        tag_prefix_of(prefix) is Ok,
    ensures
        tag_prefix_of(prefix)->Ok_0.header.data_size <= MAX_MESSAGE_LEN,
        TAG_PREFIX_LEN + tag_prefix_of(prefix)->Ok_0.header.data_size > MAX_MESSAGE_LEN
            <==> tag_prefix_of(prefix)->Ok_0.header.data_size > 16_777_200,
{
    law_tag_header_numbers(prefix.skip(PREVIOUS_TAG_SIZE_LEN as int));
}

/// Fifteen bytes or more whose fifth is 8, 9 or 18 are what stands in front of the data of a tag, and
/// nothing else is. The header that comes with them has the type and the numbers that their own
/// bytes say.
pub proof fn law_prefix_says_what_its_bytes_say(prefix: Seq<u8>)
    ensures
        prefix.len() < 15 ==> tag_prefix_of(prefix) == Err::<TagPrefix, FlvError>(
            FlvError::Incomplete,
        ),
        prefix.len() >= 15 && prefix[4] != 8 && prefix[4] != 9 && prefix[4] != 18 ==> tag_prefix_of(
            prefix,
        ) == Err::<TagPrefix, FlvError>(FlvError::UnknownTagType(prefix[4])),
        prefix.len() >= 15 && (prefix[4] == 8 || prefix[4] == 9 || prefix[4] == 18) ==> {
            &&& tag_prefix_of(prefix) matches Ok(front)
            &&& front.previous_tag_size == prefix[0] * 16777216 + prefix[1] * 65536 + prefix[2] * 256
                + prefix[3]
            &&& front.header.tag_type == TagType::Audio <==> prefix[4] == 8
            &&& front.header.tag_type == TagType::Video <==> prefix[4] == 9
            &&& front.header.tag_type == TagType::Script <==> prefix[4] == 18
            &&& front.header.data_size == prefix[5] * 65536 + prefix[6] * 256 + prefix[7]
            &&& front.header.timestamp == prefix[11] * 16777216 + prefix[8] * 65536 + prefix[9] * 256
                + prefix[10]
            &&& front.header.timestamp == be_value(seq![prefix[11]] + prefix.subrange(8, 11))
            &&& front.header.data_size == be_value(prefix.subrange(5, 8))
            &&& front.header.stream_id == prefix[12] * 65536 + prefix[13] * 256 + prefix[14]
            &&& front.header.stream_id == be_value(prefix.subrange(12, 15))
        },
{
    let rest = prefix.skip(4);
    law_tag_header_says_what_its_bytes_say(rest);
    if prefix.len() >= 15 {
        law_be_value_digits(prefix.take(4), 0);
        lemma_be_value_bound(prefix.take(4));
        law_be_value_digits(prefix.subrange(5, 8), 0);
        law_be_value_digits(prefix.subrange(12, 15), 0);
        law_be_value_digits(seq![prefix[11]] + prefix.subrange(8, 11), 0);
        assert(rest[0] == prefix[4]);
    }
}

/// There is a tag at a place exactly where fifteen bytes stand whose fifth is 8, 9 or 18, and as many
/// bytes behind them as the sixth, seventh and eighth say. Its bytes are all of these, as the file
/// has them.
pub proof fn law_where_a_tag_is(file: Seq<u8>, pos: int)
    requires
        0 <= pos,
    ensures
        tag_at(file, pos) is Some <==> pos + 15 <= file.len() && (file[pos + 4] == 8 || file[pos + 4]
            == 9 || file[pos + 4] == 18) && pos + 15 + file[pos + 5] * 65536 + file[pos + 6] * 256
            + file[pos + 7] <= file.len(),
        tag_at(file, pos) matches Some((header, bytes)) ==> {
            &&& bytes == file.subrange(
                pos,
                pos + 15 + file[pos + 5] * 65536 + file[pos + 6] * 256 + file[pos + 7],
            )
            &&& header.data_size == bytes.len() - 15
            &&& header.timestamp == file[pos + 11] * 16777216 + file[pos + 8] * 65536 + file[pos + 9]
                * 256 + file[pos + 10]
            &&& header.tag_type == TagType::Audio <==> file[pos + 4] == 8
            &&& header.tag_type == TagType::Video <==> file[pos + 4] == 9
            &&& header.tag_type == TagType::Script <==> file[pos + 4] == 18
        },
{
    if pos + 15 <= file.len() {
        law_prefix_says_what_its_bytes_say(file.subrange(pos, pos + 15));
    }
}

} // verus!
