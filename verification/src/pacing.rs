//! Sending the tags of a file out at the pace at which they are to be shown.
use crate::flv::TagHeader;
use vstd::prelude::*;

verus! {

/// A tag and the time at which it is due, counted from the start of the file.
#[derive(Debug)]
pub struct TimedTag {
    pub offset_ms: u64,
    pub header: TagHeader,
    pub data: Vec<u8>,
}

/// A tag and the time at which it is due, as mathematical values.
pub struct TimedTagView {
    pub offset_ms: nat,
    pub header: TagHeader,
    pub data: Seq<u8>,
}

impl View for TimedTag {
    type V = TimedTagView;

    open spec fn view(&self) -> TimedTagView {
        TimedTagView { offset_ms: self.offset_ms as nat, header: self.header, data: self.data@ }
    }
}

/// A tag of a file, which is due at its timestamp.
pub open spec fn timed(header: TagHeader, data: Seq<u8>) -> TimedTagView {
    TimedTagView { offset_ms: header.timestamp as nat, header, data }
}

/// When a tag is due, in nanoseconds from the start.
pub open spec fn due_nanos(timestamp: u32) -> nat {
    timestamp as nat * 1_000_000
}

/// How long to wait before a tag goes out, in nanoseconds, if `elapsed_nanos` have passed since
/// the start; `None` if it is due already.
pub open spec fn delay_of(timestamp: u32, elapsed_nanos: u128) -> Option<u64> {
    if due_nanos(timestamp) > elapsed_nanos {
        Some((due_nanos(timestamp) - elapsed_nanos) as u64)
    } else {
        None
    }
}

/// Computes how long to wait before a tag goes out.
pub fn delay_nanos(timestamp: u32, elapsed_nanos: u128) -> (delay: Option<u64>)
    ensures
        delay == delay_of(timestamp, elapsed_nanos),
        delay is Some <==> timestamp * 1_000_000 > elapsed_nanos,
        delay matches Some(nanos) ==> elapsed_nanos + nanos == timestamp * 1_000_000,
{
    let due: u64 = timestamp as u64 * 1_000_000;
    if due as u128 > elapsed_nanos {
        Some(due - elapsed_nanos as u64)
    } else {
        None
    }
}

/// Puts the time at which a tag is due beside it.
pub fn timed_tag(header: TagHeader, data: Vec<u8>) -> (tag: TimedTag)
    ensures
        tag@ == timed(header, data@),
{
    TimedTag { offset_ms: header.timestamp as u64, header, data }
}

/// The RTMP timestamp for a time: RTMP counts milliseconds modulo two to the power 32.
pub fn rtmp_timestamp(offset_ms: u64) -> (timestamp: u32)
    ensures
        timestamp == offset_ms % 0x1_0000_0000,
{
    (offset_ms % 0x1_0000_0000) as u32
}

/// A tag goes out at the moment that it is due, or at once if that moment has passed: never early,
/// and never later than it has to.
pub proof fn law_released_when_due(timestamp: u32, elapsed_nanos: u128)
    ensures
        elapsed_nanos + (match delay_of(timestamp, elapsed_nanos) {
            Some(nanos) => nanos as int,
            None => 0int,
        }) == if due_nanos(timestamp) > elapsed_nanos {
            due_nanos(timestamp) as int
        } else {
            elapsed_nanos as int
        },
{
}

/// A tag goes out when as many milliseconds have passed since the start as its timestamp says, which
/// is a million nanoseconds for each, or at once if they have passed already.
pub proof fn law_a_millisecond_is_a_million_nanoseconds(timestamp: u32, elapsed_nanos: u128)
    ensures
        due_nanos(timestamp) == timestamp * 1_000_000,
        delay_of(timestamp, elapsed_nanos) is Some <==> elapsed_nanos < timestamp * 1_000_000,
        delay_of(timestamp, elapsed_nanos) matches Some(nanos) ==> elapsed_nanos + nanos == timestamp
            * 1_000_000,
{
}

/// Tags that are due one after the other go out one after the other, and just as far apart, if they
/// are not late.
pub proof fn law_pace_is_kept(earlier: u32, later: u32, elapsed_nanos: u128)
    requires
        elapsed_nanos < earlier * 1_000_000,
        earlier <= later,
    ensures
        delay_of(later, elapsed_nanos) is Some,
        delay_of(earlier, elapsed_nanos) is Some,
        delay_of(later, elapsed_nanos)->Some_0 - delay_of(earlier, elapsed_nanos)->Some_0 == (later
            - earlier) * 1_000_000,
{
}

/// A tag is handed out with its own header and all of its bytes, at its own timestamp.
pub proof fn law_timed_tag_is_the_tag(header: TagHeader, data: Seq<u8>)
    ensures
        timed(header, data).offset_ms == header.timestamp,
        timed(header, data).header == header,
        timed(header, data).data == data,
{
}

/// A tag, as mathematical values, has the time, the header and the bytes of the tag.
pub proof fn law_view_is_the_tag(tag: TimedTag)
    ensures
        tag@.offset_ms == tag.offset_ms,
        tag@.header == tag.header,
        tag@.data == tag.data@,
{
}

} // verus!
