//! What a whole file becomes: the tags that are handed out of it, and the messages that are
//! published.
use crate::flv::{header_of, TagHeader, TagType, HEADER_LEN};
use crate::flv_reader::{bytes_of, tag_at, tags_from, TAG_PREFIX_LEN};
use crate::pacing::{timed, TimedTag, TimedTagView};
use crate::publisher::{media_message_of, tag_accepted, MessageView};
use crate::session::{SessionState, MAX_MESSAGE_LEN};
use vstd::prelude::*;

verus! {

/// The tags that are handed out of a file: those from where its header says, up to the first place
/// where there is none or not all of one. A file without a header has none.
pub open spec fn handed_out(file: Seq<u8>) -> Seq<TimedTagView> {
    match header_of(file) {
        Ok(header) => tags_from(file, header.offset as int).map_values(
            |tag: (TagHeader, Seq<u8>)| timed(tag.0, tag.1),
        ),
        Err(_) => Seq::empty(),
    }
}

/// Whether a tag is one that is published.
pub open spec fn is_media(tag: TimedTagView) -> bool {
    tag.header.tag_type == TagType::Video || tag.header.tag_type == TagType::Audio
}

/// The message that a tag is published as: its bytes at its time, not to be dropped.
pub open spec fn message_of(tag: TimedTagView) -> MessageView {
    MessageView {
        tag_type: tag.header.tag_type,
        data: tag.data,
        timestamp: (tag.offset_ms % 0x1_0000_0000) as u32,
        can_be_dropped: false,
    }
}

/// The messages that tags are published as, one after the other.
pub open spec fn published(tags: Seq<TimedTagView>) -> Seq<MessageView> {
    tags.filter(|tag: TimedTagView| is_media(tag)).map_values(|tag: TimedTagView| message_of(tag))
}

/// Whether a publishing session takes a tag.
pub open spec fn fits(tag: TimedTagView) -> bool {
    is_media(tag) ==> tag.data.len() <= MAX_MESSAGE_LEN
}

/// How many tags come before the first that a publishing session does not take, with which
/// publishing ends.
pub open spec fn fitting(tags: Seq<TimedTagView>) -> int
    decreases tags.len(),
{
    if tags.len() == 0 || !fits(tags[0]) {
        0
    } else {
        1 + fitting(tags.skip(1))
    }
}

/// The messages that a file is published as.
pub open spec fn file_published(file: Seq<u8>) -> Seq<MessageView> {
    published(handed_out(file).take(fitting(handed_out(file))))
}

/// The tags from a place on: each begins where those before it end, and behind the last there is
/// none.
proof fn lemma_tags_from(file: Seq<u8>, pos: int)
    requires
        0 <= pos,
    ensures
        forall|i: int|
            0 <= i < tags_from(file, pos).len() ==> tag_at(
                file,
                pos + bytes_of(tags_from(file, pos).take(i)).len(),
            ) == Some(#[trigger] tags_from(file, pos)[i]),
        tag_at(file, pos + bytes_of(tags_from(file, pos)).len()) is None,
    decreases file.len() - pos,
{
    let tags = tags_from(file, pos);
    match tag_at(file, pos) {
        Some(tag) => {
            let next = pos + tag.1.len();
            let later = tags_from(file, next);
            lemma_tags_from(file, next);
            assert(tags =~= seq![tag] + later);
            assert(tags.skip(1) =~= later);
            assert forall|i: int| 0 <= i < tags.len() implies tag_at(
                file,
                pos + bytes_of(tags.take(i)).len(),
            ) == Some(#[trigger] tags[i]) by {
                if i > 0 {
                    assert(tags.take(i).skip(1) =~= later.take(i - 1));
                    assert(tags.take(i)[0] == tag);
                    assert(tags[i] == later[i - 1]);
                } else {
                    assert(tags.take(0) =~= Seq::empty());
                }
            }
        },
        None => {},
    }
}

/// Of a file with a header, the tags are handed out in file order, each once, and none is left out:
/// the first begins where the header says, each of the others where the one before ends, and behind
/// the last there is no whole tag. Each goes out at its own timestamp, with all of its bytes: those
/// in front of its data, and its data.
pub proof fn law_tags_are_handed_out_in_order(file: Seq<u8>)
    requires
        header_of(file) is Ok,
    ensures
        header_of(file.take(HEADER_LEN as int)) == header_of(file),
        ({
            let start = header_of(file)->Ok_0.offset;
            let tags = tags_from(file, start as int);
            let out = handed_out(file);
            &&& out.len() == tags.len()
            &&& forall|i: int|
                0 <= i < out.len() ==> {
                    &&& tag_at(file, start + bytes_of(tags.take(i)).len()) == Some(
                        ((#[trigger] out[i]).header, out[i].data),
                    )
                    &&& out[i].offset_ms == out[i].header.timestamp
                    &&& out[i].data.len() == TAG_PREFIX_LEN + out[i].header.data_size
                }
            &&& tag_at(file, start + bytes_of(tags).len()) is None
        }),
{
    let front = file.take(HEADER_LEN as int);
    assert(front.take(3) =~= file.take(3));
    assert(front.subrange(5, 9) =~= file.subrange(5, 9));
    let start = header_of(file)->Ok_0.offset;
    let tags = tags_from(file, start as int);
    let out = handed_out(file);
    lemma_tags_from(file, start as int);
    assert forall|i: int| 0 <= i < out.len() implies {
        &&& tag_at(file, start + bytes_of(tags.take(i)).len()) == Some(
            ((#[trigger] out[i]).header, out[i].data),
        )
        &&& out[i].offset_ms == out[i].header.timestamp
        &&& out[i].data.len() == TAG_PREFIX_LEN + out[i].header.data_size
    } by {
        assert(out[i] == timed(tags[i].0, tags[i].1));
    }
}

/// The published messages follow the tags one by one: a video or audio tag adds its message at the
/// end, and any other tag adds nothing.
pub proof fn law_publishing_follows_the_tags(tags: Seq<TimedTagView>, tag: TimedTagView)
    ensures
        published(Seq::empty()) == Seq::<MessageView>::empty(),
        published(tags.push(tag)) == if is_media(tag) {
            published(tags).push(message_of(tag))
        } else {
            published(tags)
        },
{
    reveal(Seq::filter);
    assert(tags.push(tag).drop_last() =~= tags);
    assert(published(Seq::empty()) =~= Seq::<MessageView>::empty());
    if is_media(tag) {
        assert(published(tags.push(tag)) =~= published(tags).push(message_of(tag)));
    }
}

/// What is published of a tag is the message that it is sent as, and a publishing session takes it
/// if it fits.
pub proof fn law_tag_becomes_its_message(tag: TimedTag)
    ensures
        is_media(tag@) <==> media_message_of(tag) is Some,
        media_message_of(tag) matches Some(message) ==> message@ == message_of(tag@),
        fits(tag@) <==> tag_accepted(SessionState::Publishing, tag),
{
}

/// The tags that fit are those before the first that does not.
proof fn lemma_fitting(tags: Seq<TimedTagView>)
    ensures
        0 <= fitting(tags) <= tags.len(),
        forall|i: int| 0 <= i < fitting(tags) ==> fits(#[trigger] tags[i]),
        fitting(tags) < tags.len() ==> !fits(tags[fitting(tags)]),
    decreases tags.len(),
{
    if tags.len() > 0 && fits(tags[0]) {
        let rest = tags.skip(1);
        lemma_fitting(rest);
        assert forall|i: int| 0 <= i < fitting(tags) implies fits(#[trigger] tags[i]) by {
            if i > 0 {
                assert(tags[i] == rest[i - 1]);
            }
        }
    }
}

/// A file is published as the messages of its video and audio tags, in file order, each once, at the
/// timestamp of the tag, unless one of these tags has more data than 16,777,200 bytes: then as those
/// before the first such tag.
pub proof fn law_file_is_published(file: Seq<u8>)
    requires
        header_of(file) is Ok,
    ensures
        ({
            let out = handed_out(file);
            let count = fitting(out);
            &&& 0 <= count <= out.len()
            &&& count < out.len() ==> is_media(out[count]) && out[count].header.data_size
                > 16_777_200
            &&& forall|i: int|
                0 <= i < count ==> (is_media(#[trigger] out[i]) ==> out[i].header.data_size
                    <= 16_777_200 && message_of(out[i]).timestamp == out[i].header.timestamp)
            &&& (forall|i: int|
                0 <= i < out.len() && is_media(#[trigger] out[i]) ==> out[i].header.data_size
                    <= 16_777_200) ==> file_published(file) == published(out)
        }),
{
    let out = handed_out(file);
    law_tags_are_handed_out_in_order(file);
    lemma_fitting(out);
    if fitting(out) == out.len() {
        assert(out.take(fitting(out)) =~= out);
    }
}

} // verus!
