//! The FLV container: its file header and the header of each tag.
use crate::be::{
    be_u24, be_u32, be_value, law_be_value_digits, lemma_be_value_3, lemma_be_value_bound,
};
use vstd::prelude::*;
use vstd::slice::slice_subrange;

verus! {

/// The length of the file header.
pub const HEADER_LEN: usize = 9;

/// The length of a tag header.
pub const TAG_HEADER_LEN: usize = 11;

/// What a tag carries.
#[derive(Clone, Copy, Debug, PartialEq, Eq, Structural)]
pub enum TagType {
    Audio,
    Video,
    Script,
}

/// The header at the front of a file.
#[derive(Clone, Copy, Debug, PartialEq, Eq, Structural)]
pub struct Header {
    pub version: u8,
    /// Whether the file says that it has audio tags.
    pub audio: bool,
    /// Whether the file says that it has video tags.
    pub video: bool,
    /// Where the first tag starts, counted from the front of the file.
    pub offset: u32,
}

/// The header at the front of a tag.
#[derive(Clone, Copy, Debug, PartialEq, Eq, Structural)]
pub struct TagHeader {
    pub tag_type: TagType,
    /// How many bytes of data follow the header.
    pub data_size: u32,
    /// When the tag is due, in milliseconds from the start of the file.
    pub timestamp: u32,
    pub stream_id: u32,
}

/// Why bytes are not the header that they should be.
#[derive(Clone, Copy, Debug, PartialEq, Eq, Structural)]
pub enum FlvError {
    /// There are too few bytes.
    Incomplete,
    /// The file does not start with `FLV`.
    BadSignature,
    /// No tag has this type.
    UnknownTagType(u8),
}

/// The type that a byte stands for, if it stands for one.
pub open spec fn tag_type_of(byte: u8) -> Option<TagType> {
    if byte == 8 {
        Some(TagType::Audio)
    } else if byte == 9 {
        Some(TagType::Video)
    } else if byte == 18 {
        Some(TagType::Script)
    } else {
        None
    }
}

/// The file header in the first bytes of `input`: `FLV`, the version, a byte of flags of which bit
/// 2 stands for audio and bit 0 for video, and four bytes with the place of the first tag.
pub open spec fn header_of(input: Seq<u8>) -> Result<Header, FlvError> {
    if input.len() < HEADER_LEN {
        Err(FlvError::Incomplete)
    } else if input.take(3) != seq![0x46u8, 0x4cu8, 0x56u8] {
        Err(FlvError::BadSignature)
    } else {
        Ok(
            Header {
                version: input[3],
                audio: input[4] & 4 == 4,
                video: input[4] & 1 == 1,
                offset: be_value(input.subrange(5, 9)) as u32,
            },
        )
    }
}

/// The tag header in the first bytes of `input`: a byte for the type, three for the size of the
/// data, three for the low part of the timestamp, one for its high part, three for the stream.
pub open spec fn tag_header_of(input: Seq<u8>) -> Result<TagHeader, FlvError> {
    if input.len() < TAG_HEADER_LEN {
        Err(FlvError::Incomplete)
    } else {
        match tag_type_of(input[0]) {
            None => Err(FlvError::UnknownTagType(input[0])),
            Some(tag_type) => Ok(
                TagHeader {
                    tag_type,
                    data_size: be_value(input.subrange(1, 4)) as u32,
                    timestamp: (input[7] * 0x100_0000 + be_value(input.subrange(4, 7))) as u32,
                    stream_id: be_value(input.subrange(8, 11)) as u32,
                },
            ),
        }
    }
}

/// Reads the file header in the first bytes of `input`.
pub fn header(input: &[u8]) -> (header: Result<Header, FlvError>)
    ensures
        header == header_of(input@),
{
    if input.len() < HEADER_LEN {
        return Err(FlvError::Incomplete);
    }
    let signed = input[0] == 0x46 && input[1] == 0x4c && input[2] == 0x56;
    proof {
        let front = input@.take(3);
        let signature = seq![0x46u8, 0x4cu8, 0x56u8];
        if signed {
            assert(front =~= signature);
        } else {
            assert(front[0] != signature[0] || front[1] != signature[1] || front[2]
                != signature[2]);
        }
    }
    if !signed {
        return Err(FlvError::BadSignature);
    }
    let field = slice_subrange(input, 5, 9);
    assert(field@.take(4) =~= input@.subrange(5, 9));
    match be_u32(field) {
        Some(offset) => Ok(
            Header {
                version: input[3],
                audio: input[4] & 4 == 4,
                video: input[4] & 1 == 1,
                offset,
            },
        ),
        None => Err(FlvError::Incomplete),
    }
}

/// Reads the tag header in the first bytes of `input`.
pub fn tag_header(input: &[u8]) -> (header: Result<TagHeader, FlvError>)
    ensures
        header == tag_header_of(input@),
{
    if input.len() < TAG_HEADER_LEN {
        return Err(FlvError::Incomplete);
    }
    let tag_type = match input[0] {
        8 => TagType::Audio,
        9 => TagType::Video,
        18 => TagType::Script,
        other => {
            return Err(FlvError::UnknownTagType(other));
        },
    };
    Ok(
        TagHeader {
            tag_type,
            data_size: be_u24(input, 1),
            timestamp: input[7] as u32 * 0x100_0000 + be_u24(input, 4),
            stream_id: be_u24(input, 8),
        },
    )
}

/// The numbers in a tag header are the ones that its bytes spell; the size of the data and the
/// stream take three bytes each.
pub proof fn law_tag_header_numbers(input: Seq<u8>)
    requires
        tag_header_of(input) is Ok,
    ensures
        tag_header_of(input)->Ok_0.data_size == be_value(input.subrange(1, 4)),
        tag_header_of(input)->Ok_0.data_size < 0x100_0000,
        tag_header_of(input)->Ok_0.timestamp == be_value(
            seq![input[7]] + input.subrange(4, 7),
        ),
        tag_header_of(input)->Ok_0.stream_id == be_value(input.subrange(8, 11)),
        tag_header_of(input)->Ok_0.stream_id < 0x100_0000,
{
    let time = seq![input[7]] + input.subrange(4, 7);
    lemma_be_value_bound(input.subrange(1, 4));
    lemma_be_value_bound(input.subrange(4, 7));
    lemma_be_value_bound(input.subrange(8, 11));
    lemma_be_value_bound(time);
    lemma_be_value_3(input.subrange(4, 7));
    reveal_with_fuel(be_value, 5);
    assert(time.drop_last().drop_last().drop_last() =~= seq![input[7]]);
    assert(seq![input[7]].drop_last() =~= Seq::empty());
}

/// A tag header determines its bytes: two headers that read the same are written the same.
pub proof fn law_tag_header_bytes_are_unique(first: Seq<u8>, second: Seq<u8>)
    requires
        first.len() == TAG_HEADER_LEN,
        second.len() == TAG_HEADER_LEN,
        tag_header_of(first) is Ok,
        tag_header_of(first) == tag_header_of(second),
    ensures
        first == second,
{
    law_tag_header_numbers(first);
    law_tag_header_numbers(second);
    lemma_be_value_3(first.subrange(1, 4));
    lemma_be_value_3(second.subrange(1, 4));
    lemma_be_value_3(first.subrange(4, 7));
    lemma_be_value_3(second.subrange(4, 7));
    lemma_be_value_3(first.subrange(8, 11));
    lemma_be_value_3(second.subrange(8, 11));
    assert forall|i: int| 0 <= i < first.len() implies first[i] == second[i] by {
        assert(first[7] == second[7]);
        assert(0 <= i <= 10);
    }
}

/// Nine bytes or more that begin with `FLV` are a file header, and nothing else is. The version, the
/// two flags and the place of the first tag are what its bytes say.
pub proof fn law_file_header_says_what_its_bytes_say(input: Seq<u8>)
    ensures
        input.len() < 9 ==> header_of(input) == Err::<Header, FlvError>(FlvError::Incomplete),
        input.len() >= 9 && !(input[0] == 0x46 && input[1] == 0x4c && input[2] == 0x56)
            ==> header_of(input) == Err::<Header, FlvError>(FlvError::BadSignature),
        input.len() >= 9 && input[0] == 0x46 && input[1] == 0x4c && input[2] == 0x56 ==> {
            &&& header_of(input) matches Ok(header)
            &&& header.version == input[3]
            &&& header.audio <==> (input[4] / 4) % 2 == 1
            &&& header.video <==> input[4] % 2 == 1
            &&& header.offset == input[5] * 16777216 + input[6] * 65536 + input[7] * 256 + input[8]
        },
{
    if input.len() >= 9 {
        let flags = input[4];
        assert((flags & 4 == 4) == ((flags / 4) % 2 == 1)) by (bit_vector);
        assert((flags & 1 == 1) == (flags % 2 == 1)) by (bit_vector);
        law_be_value_digits(input.subrange(5, 9), 0);
        lemma_be_value_bound(input.subrange(5, 9));
        let front = input.take(3);
        let signature = seq![0x46u8, 0x4cu8, 0x56u8];
        assert(front[0] == input[0] && front[1] == input[1] && front[2] == input[2]);
        if input[0] == 0x46 && input[1] == 0x4c && input[2] == 0x56 {
            assert(front =~= signature);
        } else {
            assert(front[0] != signature[0] || front[1] != signature[1] || front[2]
                != signature[2]);
        }
    }
}

/// Eleven bytes or more that begin with 8, 9 or 18 are a tag header, and nothing else is. The type
/// and the numbers are what its bytes say.
pub proof fn law_tag_header_says_what_its_bytes_say(input: Seq<u8>)
    ensures
        input.len() < 11 ==> tag_header_of(input) == Err::<TagHeader, FlvError>(
            FlvError::Incomplete,
        ),
        input.len() >= 11 && input[0] != 8 && input[0] != 9 && input[0] != 18 ==> tag_header_of(
            input,
        ) == Err::<TagHeader, FlvError>(FlvError::UnknownTagType(input[0])),
        input.len() >= 11 && (input[0] == 8 || input[0] == 9 || input[0] == 18) ==> {
            &&& tag_header_of(input) matches Ok(header)
            &&& header.tag_type == TagType::Audio <==> input[0] == 8
            &&& header.tag_type == TagType::Video <==> input[0] == 9
            &&& header.tag_type == TagType::Script <==> input[0] == 18
            &&& header.data_size == input[1] * 65536 + input[2] * 256 + input[3]
            &&& header.timestamp == input[7] * 16777216 + input[4] * 65536 + input[5] * 256
                + input[6]
            &&& header.stream_id == input[8] * 65536 + input[9] * 256 + input[10]
        },
{
    if input.len() >= 11 {
        lemma_be_value_3(input.subrange(1, 4));
        lemma_be_value_3(input.subrange(4, 7));
        lemma_be_value_3(input.subrange(8, 11));
    }
}

} // verus!
