//! The AMF0 values in a message, as far as it matters whether the session can read them.
//!
//! The session reads values one inside the other by calling itself, and takes a command apart into
//! its name, its number and its object without asking whether there are three values. What is here
//! tells beforehand how many values a message has and how deep they are nested.
use crate::be::{be_u32, be_value, law_be_value_digits};
use vstd::prelude::*;
use vstd::slice::{slice_subrange, slice_to_vec};
use vstd::utf8::valid_utf8;

verus! {

/// How deep values may be nested. Whoever reads them needs some stack for every level: the session
/// takes less than 3 KiB, in a build without optimisations and for the kind of value that takes most.
/// So many levels fit in 2 MiB, which is what a thread gets unless it asks for more, and leave a
/// quarter of it. What is nested deeper might overflow the stack, and that cannot be recovered from.
pub const MAX_NESTING: u32 = 512;

/// How many values a command has at least: its name, its number and its object.
pub const COMMAND_VALUES: usize = 3;

/// What stands at a place where a value may stand.
pub enum ValueAt {
    /// A value, and where it ends.
    Value { next: int },
    /// No value: the data or the list of values ends, and what follows begins there.
    End { next: int },
    /// Something that is no value.
    Bad,
    /// Values that are nested too deep.
    TooDeep,
}

/// The values of a whole message.
pub enum Content {
    /// This many values.
    Values(nat),
    /// Something that is no value.
    Bad,
    /// Values that are nested too deep.
    TooDeep,
}

/// A value of a fixed length.
pub open spec fn fixed_at(data: Seq<u8>, at: int, len: int) -> ValueAt {
    if at + len <= data.len() {
        ValueAt::Value { next: at + len }
    } else {
        ValueAt::Bad
    }
}

/// The bytes of a text of `len` bytes. Where the data ends before the text does, zeros take the
/// place of what is missing.
pub open spec fn text_bytes(data: Seq<u8>, at: int, len: int) -> Seq<u8> {
    if at + len <= data.len() {
        data.subrange(at, at + len)
    } else {
        data.skip(at) + Seq::new((at + len - data.len()) as nat, |i: int| 0u8)
    }
}

/// Where a text ends that starts at a place with its length in two bytes, if it is one.
pub open spec fn text_end(data: Seq<u8>, at: int) -> Option<int> {
    if at + 2 > data.len() {
        None
    } else {
        let len = data[at] * 256 + data[at + 1];
        if !valid_utf8(text_bytes(data, at + 2, len)) {
            None
        } else if at + 2 + len <= data.len() {
            Some(at + 2 + len)
        } else {
            Some(data.len() as int)
        }
    }
}

/// The value at a place, where values may be nested `room` deep: a byte that tells its kind, and
/// what belongs to it. Objects and both kinds of arrays hold values of their own.
pub open spec fn value_at(data: Seq<u8>, at: int, room: nat) -> ValueAt
    decreases room, 0int, 0nat,
{
    if room == 0 {
        ValueAt::TooDeep
    } else if at >= data.len() {
        ValueAt::End { next: at }
    } else if data[at] == 0 {
        fixed_at(data, at + 1, 8)
    } else if data[at] == 1 {
        fixed_at(data, at + 1, 1)
    } else if data[at] == 2 {
        match text_end(data, at + 1) {
            Some(next) => ValueAt::Value { next },
            None => ValueAt::Bad,
        }
    } else if data[at] == 3 {
        properties_at(data, at + 1, data.len(), (room - 1) as nat)
    } else if data[at] == 5 || data[at] == 6 {
        ValueAt::Value { next: at + 1 }
    } else if data[at] == 8 {
        if at + 5 <= data.len() {
            properties_at(data, at + 5, data.len(), (room - 1) as nat)
        } else {
            ValueAt::Bad
        }
    } else if data[at] == 9 {
        ValueAt::End { next: at + 1 }
    } else if data[at] == 10 {
        if at + 5 <= data.len() {
            items_at(
                data,
                at + 5,
                be_value(data.subrange(at + 1, at + 5)),
                (room - 1) as nat,
            )
        } else {
            ValueAt::Bad
        }
    } else {
        ValueAt::Bad
    }
}

/// The rest of an array that has `count` values yet to come, from a place on. It may end earlier.
pub open spec fn items_at(data: Seq<u8>, at: int, count: nat, room: nat) -> ValueAt
    decreases room, 1int, count,
{
    if count == 0 {
        ValueAt::Value { next: at }
    } else {
        match value_at(data, at, room) {
            ValueAt::Value { next } => items_at(data, next, (count - 1) as nat, room),
            ValueAt::End { next } => ValueAt::Value { next },
            other => other,
        }
    }
}

/// The rest of an object, from a place on: names with a value behind each, up to an empty name and
/// an end mark. There are at most `count` of them, which is never fewer than there are bytes.
pub open spec fn properties_at(data: Seq<u8>, at: int, count: nat, room: nat) -> ValueAt
    decreases room, 1int, count,
{
    if count == 0 || at + 2 > data.len() {
        ValueAt::Bad
    } else if data[at] == 0 && data[at + 1] == 0 {
        if at + 2 < data.len() && data[at + 2] == 9 {
            ValueAt::Value { next: at + 3 }
        } else {
            ValueAt::Bad
        }
    } else {
        match text_end(data, at) {
            None => ValueAt::Bad,
            Some(value) => match value_at(data, value, room) {
                ValueAt::Value { next } => properties_at(data, next, (count - 1) as nat, room),
                ValueAt::End { .. } => ValueAt::Bad,
                other => other,
            },
        }
    }
}

/// The values from a place on. There are at most `count` of them, which is never fewer than there
/// are bytes.
pub open spec fn content_from(data: Seq<u8>, at: int, count: nat) -> Content
    decreases count,
{
    if count == 0 {
        Content::Values(0)
    } else {
        match value_at(data, at, MAX_NESTING as nat) {
            ValueAt::Value { next } => more(content_from(data, next, (count - 1) as nat), 1),
            ValueAt::End { .. } => Content::Values(0),
            ValueAt::Bad => Content::Bad,
            ValueAt::TooDeep => Content::TooDeep,
        }
    }
}

/// The same with `found` values more in front.
pub open spec fn more(content: Content, found: nat) -> Content {
    match content {
        Content::Values(count) => Content::Values(count + found),
        other => other,
    }
}

/// The values of a message.
pub open spec fn content_of(data: Seq<u8>) -> Content {
    content_from(data, 0, data.len())
}

/// Whether the session can take a message apart: commands (types 17 and 20) must not have too few
/// values, unless something in them is no value at all, and neither they nor data (types 15 and 18)
/// may be nested too deep. A command of type 17 may have a zero in front.
pub open spec fn is_handleable(type_id: u8, data: Seq<u8>) -> bool {
    if type_id == 20 {
        is_command(data)
    } else if type_id == 17 {
        if data.len() > 0 && data[0] == 0 {
            is_command(data.skip(1))
        } else {
            is_command(data)
        }
    } else if type_id == 15 || type_id == 18 {
        !(content_of(data) is TooDeep)
    } else {
        true
    }
}

/// Whether the session can take a command apart.
pub open spec fn is_command(data: Seq<u8>) -> bool {
    match content_of(data) {
        Content::Values(count) => count >= COMMAND_VALUES,
        Content::Bad => true,
        Content::TooDeep => false,
    }
}

/// What was found at a place where a value may stand.
enum Found {
    Value(usize),
    End(usize),
    Bad,
    TooDeep,
}

impl View for Found {
    type V = ValueAt;

    closed spec fn view(&self) -> ValueAt {
        match self {
            Found::Value(next) => ValueAt::Value { next: *next as int },
            Found::End(next) => ValueAt::End { next: *next as int },
            Found::Bad => ValueAt::Bad,
            Found::TooDeep => ValueAt::TooDeep,
        }
    }
}

/// Calls `std::str::from_utf8`. The contract claims that it succeeds exactly on valid UTF-8.
#[verifier::external_body]
fn is_utf8(bytes: &[u8]) -> (valid: bool)
    ensures
        valid == valid_utf8(bytes@),
{
    std::str::from_utf8(bytes).is_ok()
}

/// Finds a value of a fixed length.
fn find_fixed(data: &[u8], at: usize, len: usize) -> (found: Found)
    requires
        at <= data@.len(),
        len <= 8,
    ensures
        found@ == fixed_at(data@, at as int, len as int),
        found matches Found::Value(next) ==> next <= data@.len(),
{
    if len <= data.len() - at {
        Found::Value(at + len)
    } else {
        Found::Bad
    }
}

/// Finds the end of a text.
fn find_text_end(data: &[u8], at: usize) -> (end: Option<usize>)
    requires
        at <= data@.len(),
    ensures
        match end {
            Some(next) => text_end(data@, at as int) == Some(next as int) && at < next
                <= data@.len(),
            None => text_end(data@, at as int) is None,
        },
{
    if data.len() - at < 2 {
        return None;
    }
    let len: usize = data[at] as usize * 256 + data[at + 1] as usize;
    let start: usize = at + 2;
    let end: usize = if len <= data.len() - start {
        start + len
    } else {
        data.len()
    };
    let mut text = slice_to_vec(slice_subrange(data, start, end));
    text.resize(len, 0u8);
    assert(text@ =~= text_bytes(data@, start as int, len as int));
    if is_utf8(text.as_slice()) {
        Some(end)
    } else {
        None
    }
}

/// Finds the value at a place.
fn find_value(data: &[u8], at: usize, room: u32) -> (found: Found)
    requires
        at <= data@.len(),
    ensures
        found@ == value_at(data@, at as int, room as nat),
        found matches Found::Value(next) ==> next <= data@.len(),
        found matches Found::End(next) ==> next <= data@.len(),
    decreases room, 0int,
{
    if room == 0 {
        return Found::TooDeep;
    }
    if at >= data.len() {
        return Found::End(at);
    }
    let rest: usize = data.len() - at;
    match data[at] {
        0 => find_fixed(data, at + 1, 8),
        1 => find_fixed(data, at + 1, 1),
        2 => match find_text_end(data, at + 1) {
            Some(next) => Found::Value(next),
            None => Found::Bad,
        },
        3 => find_properties(data, at + 1, room - 1),
        5 | 6 => Found::Value(at + 1),
        8 => if rest >= 5 {
            find_properties(data, at + 5, room - 1)
        } else {
            Found::Bad
        },
        9 => Found::End(at + 1),
        10 => if rest >= 5 {
            let field = slice_subrange(data, at + 1, at + 5);
            assert(field@.take(4) =~= field@);
            match be_u32(field) {
                Some(count) => find_items(data, at + 5, count, room - 1),
                None => Found::Bad,
            }
        } else {
            Found::Bad
        },
        _ => Found::Bad,
    }
}

/// Finds the end of an array.
fn find_items(data: &[u8], start: usize, count: u32, room: u32) -> (found: Found)
    requires
        start <= data@.len(),
    ensures
        found@ == items_at(data@, start as int, count as nat, room as nat),
        found matches Found::Value(next) ==> next <= data@.len(),
        found matches Found::End(next) ==> next <= data@.len(),
    decreases room, 1int,
{
    let mut at: usize = start;
    let mut left: u32 = count;
    while left > 0
        invariant
            at <= data@.len(),
            items_at(data@, at as int, left as nat, room as nat) == items_at(
                data@,
                start as int,
                count as nat,
                room as nat,
            ),
        decreases left,
    {
        match find_value(data, at, room) {
            Found::Value(next) => {
                at = next;
                left = left - 1;
            },
            Found::End(next) => {
                return Found::Value(next);
            },
            other => {
                return other;
            },
        }
    }
    Found::Value(at)
}

/// Finds the end of an object.
fn find_properties(data: &[u8], start: usize, room: u32) -> (found: Found)
    requires
        start <= data@.len(),
    ensures
        found@ == properties_at(data@, start as int, data@.len(), room as nat),
        found matches Found::Value(next) ==> next <= data@.len(),
        found matches Found::End(next) ==> next <= data@.len(),
    decreases room, 1int,
{
    let mut at: usize = start;
    let mut left: usize = data.len();
    while left > 0 && data.len() - at >= 2
        invariant
            at <= data@.len(),
            left <= data@.len(),
            properties_at(data@, at as int, left as nat, room as nat) == properties_at(
                data@,
                start as int,
                data@.len(),
                room as nat,
            ),
        decreases left,
    {
        if data[at] == 0 && data[at + 1] == 0 {
            if data.len() - at > 2 && data[at + 2] == 9 {
                return Found::Value(at + 3);
            }
            return Found::Bad;
        }
        match find_text_end(data, at) {
            None => {
                return Found::Bad;
            },
            Some(value) => match find_value(data, value, room) {
                Found::Value(next) => {
                    at = next;
                    left = left - 1;
                },
                Found::End(_) => {
                    return Found::Bad;
                },
                other => {
                    return other;
                },
            },
        }
    }
    Found::Bad
}

/// How many values a message has, what is no value in it left aside.
enum Counted {
    Values(usize),
    Bad,
    TooDeep,
}

impl View for Counted {
    type V = Content;

    closed spec fn view(&self) -> Content {
        match self {
            Counted::Values(count) => Content::Values(*count as nat),
            Counted::Bad => Content::Bad,
            Counted::TooDeep => Content::TooDeep,
        }
    }
}

/// Counts the values of a message.
fn count_values(data: &[u8]) -> (counted: Counted)
    ensures
        counted@ == content_of(data@),
{
    let mut at: usize = 0;
    let mut left: usize = data.len();
    let mut found: usize = 0;
    while left > 0
        invariant
            at <= data@.len(),
            found + left == data@.len() <= usize::MAX,
            content_of(data@) == more(content_from(data@, at as int, left as nat), found as nat),
        decreases left,
    {
        match find_value(data, at, MAX_NESTING) {
            Found::Value(next) => {
                at = next;
                left = left - 1;
                found = found + 1;
            },
            Found::End(_) => {
                return Counted::Values(found);
            },
            Found::Bad => {
                return Counted::Bad;
            },
            Found::TooDeep => {
                return Counted::TooDeep;
            },
        }
    }
    Counted::Values(found)
}

/// Tells whether the session can take a command apart.
fn command(data: &[u8]) -> (fine: bool)
    ensures
        fine == is_command(data@),
{
    match count_values(data) {
        Counted::Values(count) => count >= COMMAND_VALUES,
        Counted::Bad => true,
        Counted::TooDeep => false,
    }
}

/// Tells whether the session can take a message apart.
pub fn handleable(type_id: u8, data: &[u8]) -> (fine: bool)
    ensures
        fine == is_handleable(type_id, data@),
{
    match type_id {
        20 => command(data),
        17 => if data.len() > 0 && data[0] == 0 {
            let rest = slice_subrange(data, 1, data.len());
            assert(rest@ =~= data@.skip(1));
            command(rest)
        } else {
            command(data)
        },
        15 | 18 => match count_values(data) {
            Counted::TooDeep => false,
            _ => true,
        },
        _ => true,
    }
}

/// Only commands and data can be turned down: a message of any other type can be taken apart,
/// whatever is in it.
pub proof fn law_only_commands_and_data_are_turned_down(type_id: u8, data: Seq<u8>)
    requires
        type_id != 15,
        type_id != 17,
        type_id != 18,
        type_id != 20,
    ensures
        is_handleable(type_id, data),
{
}

/// A command is turned down exactly if all of it is values and these are fewer than three, or if they
/// are nested too deep, and data only for the latter. A zero in front of a command of type 17 is not
/// part of it.
pub proof fn law_which_messages_are_turned_down(data: Seq<u8>)
    ensures
        is_handleable(20, data) <==> !(content_of(data) is TooDeep) && (content_of(data) matches
            Content::Values(count) ==> count >= 3),
        is_handleable(17, data) <==> if data.len() > 0 && data[0] == 0 {
            is_handleable(20, data.skip(1))
        } else {
            is_handleable(20, data)
        },
        is_handleable(15, data) <==> !(content_of(data) is TooDeep),
        is_handleable(18, data) <==> !(content_of(data) is TooDeep),
{
}

/// The values of a message are counted one by one from the front, as many as there can be, each
/// nested at most 512 deep, up to an end mark or the end of the data. What is no value spoils all.
pub proof fn law_values_are_counted_one_by_one(data: Seq<u8>, at: int, count: nat)
    ensures
        content_of(data) == content_from(data, 0, data.len()),
        content_from(data, at, 0) == Content::Values(0),
        count > 0 ==> match value_at(data, at, 512) {
            ValueAt::End { .. } => content_from(data, at, count) == Content::Values(0),
            ValueAt::Bad => content_from(data, at, count) is Bad,
            ValueAt::TooDeep => content_from(data, at, count) is TooDeep,
            ValueAt::Value { next } => match content_from(data, next, (count - 1) as nat) {
                Content::Values(later) => content_from(data, at, count) == Content::Values(
                    later + 1,
                ),
                Content::Bad => content_from(data, at, count) is Bad,
                Content::TooDeep => content_from(data, at, count) is TooDeep,
            },
        },
{
}

/// What stands at a place is told by the byte there: a number of eight bytes, a truth value of one, a
/// text, an object, nothing in two ways, an array of either kind, or the end of a list. Where there
/// is no byte left, the list ends too. Whatever is nested one level too deep is too deep.
pub proof fn law_first_byte_tells_the_value(data: Seq<u8>, at: int, room: nat)
    requires
        0 <= at,
    ensures
        value_at(data, at, 0) is TooDeep,
        room > 0 && at >= data.len() ==> value_at(data, at, room) == (ValueAt::End { next: at }),
        room > 0 && at < data.len() ==> {
            let value = value_at(data, at, room);
            let inner = (room - 1) as nat;
            &&& data[at] == 0 ==> value == if at + 9 <= data.len() {
                ValueAt::Value { next: at + 9 }
            } else {
                ValueAt::Bad
            }
            &&& data[at] == 1 ==> value == if at + 2 <= data.len() {
                ValueAt::Value { next: at + 2 }
            } else {
                ValueAt::Bad
            }
            &&& data[at] == 2 ==> value == match text_end(data, at + 1) {
                Some(next) => ValueAt::Value { next },
                None => ValueAt::Bad,
            }
            &&& data[at] == 3 ==> value == properties_at(data, at + 1, data.len(), inner)
            &&& data[at] == 5 || data[at] == 6 ==> value == (ValueAt::Value { next: at + 1 })
            &&& data[at] == 8 ==> value == if at + 5 <= data.len() {
                properties_at(data, at + 5, data.len(), inner)
            } else {
                ValueAt::Bad
            }
            &&& data[at] == 9 ==> value == (ValueAt::End { next: at + 1 })
            &&& data[at] == 10 ==> value == if at + 5 <= data.len() {
                items_at(
                    data,
                    at + 5,
                    (data[at + 1] * 16777216 + data[at + 2] * 65536 + data[at + 3] * 256 + data[at
                        + 4]) as nat,
                    inner,
                )
            } else {
                ValueAt::Bad
            }
            &&& data[at] == 4 || data[at] == 7 || data[at] > 10 ==> value is Bad
        },
{
    if at + 5 <= data.len() {
        law_be_value_digits(data.subrange(at + 1, at + 5), 0);
    }
}

/// A text of a given length ends behind so many bytes, if they are UTF-8. If the data ends within
/// it, zeros are added, and the text ends with the data.
pub proof fn law_where_a_text_ends(data: Seq<u8>, at: int)
    requires
        0 <= at,
    ensures
        at + 2 > data.len() ==> text_end(data, at) is None,
        at + 2 <= data.len() ==> {
            let len = data[at] * 256 + data[at + 1];
            let end = at + 2 + len;
            &&& end <= data.len() ==> text_end(data, at) == if valid_utf8(
                data.subrange(at + 2, end),
            ) {
                Some(end)
            } else {
                None
            }
            &&& end > data.len() ==> text_end(data, at) == if valid_utf8(
                data.skip(at + 2) + Seq::new((end - data.len()) as nat, |i: int| 0u8),
            ) {
                Some(data.len() as int)
            } else {
                None
            }
        },
{
}

/// An array is its values one after the other, as many as it says, or fewer if the list ends. An
/// object is names with a value behind each, up to an empty name and an end mark.
pub proof fn law_members_follow_one_another(data: Seq<u8>, at: int, count: nat, room: nat)
    requires
        0 <= at,
        count > 0,
    ensures
        items_at(data, at, 0, room) == (ValueAt::Value { next: at }),
        items_at(data, at, count, room) == match value_at(data, at, room) {
            ValueAt::Value { next } => items_at(data, next, (count - 1) as nat, room),
            ValueAt::End { next } => ValueAt::Value { next },
            ValueAt::Bad => ValueAt::Bad,
            ValueAt::TooDeep => ValueAt::TooDeep,
        },
        at + 2 > data.len() ==> properties_at(data, at, count, room) is Bad,
        at + 2 <= data.len() && data[at] == 0 && data[at + 1] == 0 ==> properties_at(
            data,
            at,
            count,
            room,
        ) == if at + 3 <= data.len() && data[at + 2] == 9 {
            ValueAt::Value { next: at + 3 }
        } else {
            ValueAt::Bad
        },
        at + 2 <= data.len() && !(data[at] == 0 && data[at + 1] == 0) ==> properties_at(
            data,
            at,
            count,
            room,
        ) == match text_end(data, at) {
            None => ValueAt::Bad,
            Some(value) => match value_at(data, value, room) {
                ValueAt::Value { next } => properties_at(data, next, (count - 1) as nat, room),
                ValueAt::End { .. } => ValueAt::Bad,
                ValueAt::Bad => ValueAt::Bad,
                ValueAt::TooDeep => ValueAt::TooDeep,
            },
        },
{
}

} // verus!
