//! The chunks that the server cuts its messages into, followed from the outside.
//!
//! The session puts the messages together again, and nobody can look inside it. What is here keeps
//! account of the same bytes: which chunk they are in, what of the current message has come, and
//! whether the session can go on with them. There is one current message at a time, whatever chunk
//! stream a chunk belongs to.
use crate::amf::{handleable, is_handleable, law_only_commands_and_data_are_turned_down};
use crate::be::{be_u24, be_u32, be_value, law_be_value_digits, lemma_be_value_bound};
use std::collections::HashMap;
use vstd::prelude::*;
use vstd::slice::slice_subrange;
use vstd::std_specs::hash::group_hash_axioms;

verus! {

broadcast use group_hash_axioms;

/// The longest chunk, until the server announces another length.
pub const INITIAL_LIMIT: u32 = 128;

/// The longest chunk that the server can announce.
pub const MAX_LIMIT: u32 = 0x7fff_ffff;

/// The least timestamp that does not fit in three bytes. In their place this number stands, and the
/// timestamp follows in four bytes of its own.
pub const EXTENDED: u32 = 0xff_ffff;

/// The header of a chunk, as far as later chunks on the same chunk stream may refer to it.
#[derive(Clone, Copy, Debug, PartialEq, Eq, Structural)]
pub struct ChunkHead {
    pub stream: u32,
    /// The three bytes for the timestamp.
    pub time: u32,
    /// The length of the message.
    pub length: u32,
    /// The type of the message.
    pub type_id: u8,
}

/// Where in a chunk the bytes have come to, as mathematical values.
pub enum PartView {
    /// In its header, of which these bytes have come.
    Head { bytes: Seq<u8> },
    /// In its data, of which `left` bytes are to come.
    Data { head: ChunkHead, left: nat },
    /// Nowhere: a header referred to one that never came. The session refuses whatever follows.
    Lost,
}

/// How far the bytes from the server have come, as mathematical values.
pub struct ChunksView {
    /// The longest chunk.
    pub limit: nat,
    pub part: PartView,
    /// What has come of the current message.
    pub data: Seq<u8>,
    /// The last header on each chunk stream.
    pub heads: Map<u32, ChunkHead>,
}

/// What some bytes lead to: how far the bytes have come after them, and the acknowledgement windows
/// that the messages announce that end in them, in order. A window is the number of bytes after
/// which the server wants an acknowledgement.
pub struct Fed {
    pub chunks: ChunksView,
    pub windows: Seq<u32>,
}

/// Before the first byte.
pub open spec fn no_chunks() -> ChunksView {
    ChunksView {
        limit: INITIAL_LIMIT as nat,
        part: PartView::Head { bytes: Seq::empty() },
        data: Seq::empty(),
        heads: Map::empty(),
    }
}

/// How much of a header there is, from 0 for all of it to 3 for none: the two high bits of its
/// first byte.
pub open spec fn format_of(bytes: Seq<u8>) -> int {
    bytes[0] as int / 64
}

/// How many bytes the chunk stream takes, with the format: one where the low six bits of the first
/// byte are its number, and two or three where they are 0 or 1.
pub open spec fn stream_len(bytes: Seq<u8>) -> int {
    if bytes[0] % 64 == 0 {
        2
    } else if bytes[0] % 64 == 1 {
        3
    } else {
        1
    }
}

/// The chunk stream.
pub open spec fn stream_of(bytes: Seq<u8>) -> u32 {
    if bytes[0] % 64 == 0 {
        (bytes[1] + 64) as u32
    } else if bytes[0] % 64 == 1 {
        (bytes[2] * 256 + bytes[1] + 64) as u32
    } else {
        (bytes[0] % 64) as u32
    }
}

/// How many bytes come behind the chunk stream: timestamp, message length, message type and message
/// stream, the timestamp alone and so on.
pub open spec fn fields_len(format: int) -> int {
    if format == 0 {
        11
    } else if format == 1 {
        7
    } else if format == 2 {
        3
    } else {
        0
    }
}

/// The header that a header refers to for what it leaves out.
pub open spec fn referred(heads: Map<u32, ChunkHead>, bytes: Seq<u8>) -> ChunkHead {
    heads[stream_of(bytes)]
}

/// The three bytes for the timestamp.
pub open spec fn time_of(heads: Map<u32, ChunkHead>, bytes: Seq<u8>) -> u32 {
    let at = stream_len(bytes);
    if format_of(bytes) == 3 {
        referred(heads, bytes).time
    } else {
        be_value(bytes.subrange(at, at + 3)) as u32
    }
}

/// Where the timestamp of four bytes stands, if there is one.
pub open spec fn extended_at(bytes: Seq<u8>) -> int {
    stream_len(bytes) + fields_len(format_of(bytes))
}

/// How long a header is, as far as the bytes that have come can tell.
pub open spec fn head_len(heads: Map<u32, ChunkHead>, bytes: Seq<u8>) -> int {
    if bytes.len() < stream_len(bytes) {
        stream_len(bytes)
    } else if bytes.len() < extended_at(bytes) {
        extended_at(bytes)
    } else if time_of(heads, bytes) >= EXTENDED {
        extended_at(bytes) + 4
    } else {
        extended_at(bytes)
    }
}

/// The header that whole bytes stand for.
pub open spec fn head_of(heads: Map<u32, ChunkHead>, bytes: Seq<u8>) -> ChunkHead {
    let at = stream_len(bytes);
    ChunkHead {
        stream: stream_of(bytes),
        time: time_of(heads, bytes),
        length: if format_of(bytes) <= 1 {
            be_value(bytes.subrange(at + 3, at + 6)) as u32
        } else {
            referred(heads, bytes).length
        },
        type_id: if format_of(bytes) <= 1 {
            bytes[at + 6]
        } else {
            referred(heads, bytes).type_id
        },
    }
}

/// Whether the timestamp of four bytes is one that would have fitted in three, where the session
/// takes the difference.
pub open spec fn time_too_small(
    heads: Map<u32, ChunkHead>,
    bytes: Seq<u8>,
    data: Seq<u8>,
) -> bool {
    let at = extended_at(bytes);
    &&& time_of(heads, bytes) >= EXTENDED
    &&& format_of(bytes) != 0
    &&& data.len() == 0
    &&& be_value(bytes.subrange(at, at + 4)) < EXTENDED
}

/// How many bytes of data a chunk has, where `have` bytes of the message have come.
pub open spec fn data_len(limit: nat, length: nat, have: nat) -> int {
    if length <= limit {
        length as int
    } else if length - have <= limit {
        length - have
    } else {
        limit as int
    }
}

/// The number in a message of four bytes or more.
pub open spec fn number_in(data: Seq<u8>) -> nat {
    be_value(data.take(4))
}

/// The longest chunk after a message: type 1 announces it.
pub open spec fn limit_after(limit: nat, type_id: u8, data: Seq<u8>) -> nat {
    if type_id == 1 && data.len() >= 4 && number_in(data) <= MAX_LIMIT {
        number_in(data)
    } else {
        limit
    }
}

/// The acknowledgement window that a message announces, if it does: type 5 does.
pub open spec fn windows_in(type_id: u8, data: Seq<u8>) -> Seq<u32> {
    if type_id == 5 && data.len() >= 4 {
        seq![number_in(data) as u32]
    } else {
        Seq::empty()
    }
}

/// A chunk has come whole. If the message has too, the session takes it apart. `None` if it cannot.
pub open spec fn chunk_closed(chunks: ChunksView, head: ChunkHead) -> Option<Fed> {
    let closed = ChunksView {
        part: PartView::Head { bytes: Seq::empty() },
        heads: chunks.heads.insert(head.stream, head),
        ..chunks
    };
    if chunks.data.len() != head.length {
        Some(Fed { chunks: closed, windows: Seq::empty() })
    } else if !is_handleable(head.type_id, chunks.data) {
        None
    } else {
        Some(
            Fed {
                chunks: ChunksView {
                    limit: limit_after(chunks.limit, head.type_id, chunks.data),
                    data: Seq::empty(),
                    ..closed
                },
                windows: windows_in(head.type_id, chunks.data),
            },
        )
    }
}

/// A header has come whole. `None` if it makes the message shorter than what has come of it.
pub open spec fn chunk_opened(chunks: ChunksView, head: ChunkHead) -> Option<Fed> {
    let left = data_len(chunks.limit, head.length as nat, chunks.data.len());
    if chunks.data.len() > head.length {
        None
    } else if left == 0 {
        chunk_closed(chunks, head)
    } else {
        Some(
            Fed {
                chunks: ChunksView {
                    part: PartView::Data { head, left: left as nat },
                    ..chunks
                },
                windows: Seq::empty(),
            },
        )
    }
}

/// One byte has come. `None` if the session cannot go on with it.
pub open spec fn byte_fed(chunks: ChunksView, byte: u8) -> Option<Fed> {
    match chunks.part {
        PartView::Lost => Some(Fed { chunks, windows: Seq::empty() }),
        PartView::Head { bytes } => {
            let head = bytes.push(byte);
            if head.len() >= stream_len(head) && format_of(head) != 0
                && !chunks.heads.contains_key(stream_of(head)) {
                Some(Fed { chunks: ChunksView { part: PartView::Lost, ..chunks }, windows: Seq::empty() })
            } else if head.len() < head_len(chunks.heads, head) {
                Some(
                    Fed {
                        chunks: ChunksView { part: PartView::Head { bytes: head }, ..chunks },
                        windows: Seq::empty(),
                    },
                )
            } else if time_too_small(chunks.heads, head, chunks.data) {
                None
            } else {
                chunk_opened(chunks, head_of(chunks.heads, head))
            }
        },
        PartView::Data { head, left } => {
            let more = ChunksView { data: chunks.data.push(byte), ..chunks };
            if left > 1 {
                Some(
                    Fed {
                        chunks: ChunksView {
                            part: PartView::Data { head, left: (left - 1) as nat },
                            ..more
                        },
                        windows: Seq::empty(),
                    },
                )
            } else {
                chunk_closed(more, head)
            }
        },
    }
}

/// Bytes have come, one after the other. `None` if the session cannot go on with one of them.
pub open spec fn fed(chunks: ChunksView, bytes: Seq<u8>) -> Option<Fed>
    decreases bytes.len(),
{
    if bytes.len() == 0 {
        Some(Fed { chunks, windows: Seq::empty() })
    } else {
        match fed(chunks, bytes.drop_last()) {
            None => None,
            Some(before) => match byte_fed(before.chunks, bytes.last()) {
                None => None,
                Some(after) => Some(
                    Fed {
                        chunks: after.chunks,
                        windows: before.windows + after.windows,
                    },
                ),
            },
        }
    }
}

/// Bytes that come in two parts are as good as the whole.
pub proof fn law_cut_does_not_matter(chunks: ChunksView, first: Seq<u8>, second: Seq<u8>)
    ensures
        fed(chunks, first) is None ==> fed(chunks, first + second) is None,
        fed(chunks, first) matches Some(half) ==> match fed(half.chunks, second) {
            None => fed(chunks, first + second) is None,
            Some(whole) => fed(chunks, first + second) matches Some(same) && same.chunks
                == whole.chunks && same.windows == half.windows + whole.windows,
        },
    decreases second.len(),
{
    if second.len() == 0 {
        assert(first + second =~= first);
        assert(fed(chunks, first) matches Some(half) ==> half.windows + Seq::<u32>::empty()
            =~= half.windows);
    } else {
        law_cut_does_not_matter(chunks, first, second.drop_last());
        assert((first + second).drop_last() =~= first + second.drop_last());
    }
}

/// Once a header has referred to one that never came, nothing that follows changes that, and the
/// session can be handed any bytes, which it refuses.
pub proof fn law_lost_stays_lost(chunks: ChunksView, bytes: Seq<u8>)
    requires
        chunks.part is Lost,
    ensures
        fed(chunks, bytes) == Some(Fed { chunks, windows: Seq::empty() }),
    decreases bytes.len(),
{
    if bytes.len() > 0 {
        law_lost_stays_lost(chunks, bytes.drop_last());
    }
}

/// Where in a chunk the bytes have come to.
#[derive(Debug)]
enum Part {
    Head(Vec<u8>),
    Data { head: ChunkHead, left: u32 },
    Lost,
}

/// How far the bytes from the server have come.
#[derive(Debug)]
pub struct Chunks {
    limit: u32,
    part: Part,
    data: Vec<u8>,
    heads: HashMap<u32, ChunkHead>,
}

impl View for Chunks {
    type V = ChunksView;

    closed spec fn view(&self) -> ChunksView {
        ChunksView {
            limit: self.limit as nat,
            part: match self.part {
                Part::Head(bytes) => PartView::Head { bytes: bytes@ },
                Part::Data { head, left } => PartView::Data { head, left: left as nat },
                Part::Lost => PartView::Lost,
            },
            data: self.data@,
            heads: self.heads@,
        }
    }
}

impl Chunks {
    /// What is always so: of a chunk whose data is coming in, there is some to come.
    pub closed spec fn valid(&self) -> bool {
        self.part matches Part::Data { head, left } ==> left > 0
    }

    /// Before the first byte.
    pub fn new() -> (chunks: Chunks)
        ensures
            chunks.valid(),
            chunks@ == no_chunks(),
    {
        let chunks = Chunks {
            limit: INITIAL_LIMIT,
            part: Part::Head(Vec::new()),
            data: Vec::new(),
            heads: HashMap::new(),
        };
        assert(chunks@.data =~= Seq::empty());
        assert(chunks@.heads =~= Map::empty());
        assert(chunks@.part->bytes =~= Seq::empty());
        chunks
    }

    /// A chunk has come whole. `None` if the session cannot take the message apart.
    fn close_chunk(&mut self, head: ChunkHead) -> (windows: Option<Vec<u32>>)
        ensures
            match chunk_closed(old(self)@, head) {
                None => windows is None,
                Some(fed) => windows matches Some(announced) && announced@ == fed.windows
                    && final(self)@ == fed.chunks && final(self).valid(),
            },
    {
        self.part = Part::Head(Vec::new());
        self.heads.insert(head.stream, head);
        assert(self@.part->bytes =~= Seq::empty());
        if self.data.len() != head.length as usize {
            return Some(Vec::new());
        }
        if !handleable(head.type_id, self.data.as_slice()) {
            return None;
        }
        let mut windows: Vec<u32> = Vec::new();
        proof {
            lemma_be_value_bound(self.data@.take(4));
        }
        match be_u32(self.data.as_slice()) {
            Some(number) => {
                if head.type_id == 1 && number <= MAX_LIMIT {
                    self.limit = number;
                }
                if head.type_id == 5 {
                    windows.push(number);
                }
            },
            None => {},
        }
        self.data = Vec::new();
        assert(self@.data =~= Seq::empty());
        assert(windows@ =~= windows_in(head.type_id, old(self)@.data));
        Some(windows)
    }

    /// A header has come whole. `None` if it makes the message shorter than what has come of it,
    /// or if the session cannot take the message apart.
    fn open_chunk(&mut self, head: ChunkHead) -> (windows: Option<Vec<u32>>)
        ensures
            match chunk_opened(old(self)@, head) {
                None => windows is None,
                Some(fed) => windows matches Some(announced) && announced@ == fed.windows
                    && final(self)@ == fed.chunks && final(self).valid(),
            },
    {
        let have: usize = self.data.len();
        if have > head.length as usize {
            return None;
        }
        let missing: u32 = head.length - have as u32;
        let left: u32 = if head.length <= self.limit {
            head.length
        } else if missing <= self.limit {
            missing
        } else {
            self.limit
        };
        if left == 0 {
            self.close_chunk(head)
        } else {
            self.part = Part::Data { head, left };
            Some(Vec::new())
        }
    }

    /// Takes one more byte of a header in.
    fn feed_head(&mut self, bytes: Vec<u8>) -> (windows: Option<Vec<u32>>)
        requires
            old(self)@.part is Lost,
            bytes@.len() > 0,
        ensures
            match byte_fed(
                (ChunksView { part: PartView::Head { bytes: bytes@.drop_last() }, ..old(self)@ }),
                bytes@.last(),
            ) {
                None => windows is None,
                Some(fed) => windows matches Some(announced) && announced@ == fed.windows
                    && final(self)@ == fed.chunks && final(self).valid(),
            },
    {
        assert(bytes@.drop_last().push(bytes@.last()) =~= bytes@);
        let format: u8 = bytes[0] / 64;
        let low: u8 = bytes[0] % 64;
        let start: usize = match low {
            0 => 2,
            1 => 3,
            _ => 1,
        };
        if bytes.len() < start {
            self.part = Part::Head(bytes);
            return Some(Vec::new());
        }
        let stream: u32 = match low {
            0 => bytes[1] as u32 + 64,
            1 => bytes[2] as u32 * 256 + bytes[1] as u32 + 64,
            _ => low as u32,
        };
        let before: ChunkHead = match self.heads.get(&stream) {
            Some(head) => *head,
            None => {
                if format != 0 {
                    return Some(Vec::new());
                }
                ChunkHead { stream, time: 0, length: 0, type_id: 0 }
            },
        };
        let fields: usize = match format {
            0 => 11,
            1 => 7,
            2 => 3,
            _ => 0,
        };
        let end: usize = start + fields;
        if bytes.len() < end {
            self.part = Part::Head(bytes);
            return Some(Vec::new());
        }
        proof {
            lemma_be_value_bound(bytes@.subrange(start as int, start + 3));
            lemma_be_value_bound(bytes@.subrange(start + 3, start + 6));
        }
        let time: u32 = if format == 3 {
            before.time
        } else {
            be_u24(bytes.as_slice(), start)
        };
        if time >= EXTENDED {
            if bytes.len() < end + 4 {
                self.part = Part::Head(bytes);
                return Some(Vec::new());
            }
            let field = slice_subrange(bytes.as_slice(), end, end + 4);
            assert(field@.take(4) =~= bytes@.subrange(end as int, end + 4));
            match be_u32(field) {
                Some(extended) => {
                    if format != 0 && self.data.len() == 0 && extended < EXTENDED {
                        return None;
                    }
                },
                None => {},
            }
        }
        let head = ChunkHead {
            stream,
            time,
            length: if format <= 1 {
                be_u24(bytes.as_slice(), start + 3)
            } else {
                before.length
            },
            type_id: if format <= 1 {
                bytes[start + 6]
            } else {
                before.type_id
            },
        };
        assert(head == head_of(self@.heads, bytes@));
        self.open_chunk(head)
    }

    /// Takes one byte in, and says which acknowledgement window the message announces that it ends,
    /// if it does. `None` if the session cannot go on with the byte.
    fn feed_byte(&mut self, byte: u8) -> (windows: Option<Vec<u32>>)
        requires
            old(self).valid(),
        ensures
            match byte_fed(old(self)@, byte) {
                None => windows is None,
                Some(fed) => windows matches Some(announced) && announced@ == fed.windows
                    && final(self)@ == fed.chunks && final(self).valid(),
            },
    {
        let mut part = Part::Lost;
        std::mem::swap(&mut part, &mut self.part);
        match part {
            Part::Lost => Some(Vec::new()),
            Part::Head(bytes) => {
                let mut head = bytes;
                head.push(byte);
                assert(head@.drop_last() =~= bytes@);
                self.feed_head(head)
            },
            Part::Data { head, left } => {
                self.data.push(byte);
                if left > 1 {
                    self.part = Part::Data { head, left: left - 1 };
                    Some(Vec::new())
                } else {
                    self.close_chunk(head)
                }
            },
        }
    }

    /// Takes bytes in, and says which acknowledgement windows the messages announce that end in
    /// them. `None` if the session cannot go on with them.
    pub fn feed(&mut self, bytes: &[u8]) -> (windows: Option<Vec<u32>>)
        requires
            old(self).valid(),
        ensures
            match fed(old(self)@, bytes@) {
                None => windows is None,
                Some(fed) => windows matches Some(announced) && announced@ == fed.windows
                    && final(self)@ == fed.chunks && final(self).valid(),
            },
    {
        let mut windows: Vec<u32> = Vec::new();
        let mut i: usize = 0;
        assert(bytes@.take(0) =~= Seq::empty());
        while i < bytes.len()
            invariant
                i <= bytes@.len(),
                self.valid(),
                fed(old(self)@, bytes@.take(i as int)) == Some(
                    Fed { chunks: self@, windows: windows@ },
                ),
            decreases bytes@.len() - i,
        {
            proof {
                assert(bytes@.take(i + 1).drop_last() =~= bytes@.take(i as int));
                law_cut_does_not_matter(
                    old(self)@,
                    bytes@.take(i + 1),
                    bytes@.skip(i + 1),
                );
                assert(bytes@.take(i + 1) + bytes@.skip(i + 1) =~= bytes@);
            }
            match self.feed_byte(bytes[i]) {
                None => {
                    return None;
                },
                Some(announced) => {
                    let mut more = announced;
                    windows.append(&mut more);
                },
            }
            i = i + 1;
        }
        assert(bytes@.take(i as int) =~= bytes@);
        Some(windows)
    }
}

/// The bytes of a header that have come so far are kept, as long as more are to come.
proof fn lemma_head_comes(chunks: ChunksView, head: Seq<u8>, count: int)
    requires
        chunks.part == (PartView::Head { bytes: Seq::empty() }),
        0 <= count < head.len(),
        head.len() == head_len(chunks.heads, head),
        format_of(head) == 0 || chunks.heads.contains_key(stream_of(head)),
    ensures
        fed(chunks, head.take(count)) == Some(
            Fed {
                chunks: ChunksView { part: PartView::Head { bytes: head.take(count) }, ..chunks },
                windows: Seq::empty(),
            },
        ),
    decreases count,
{
    let front = head.take(count);
    if count == 0 {
        assert(front =~= Seq::empty());
    } else {
        let before = head.take(count - 1);
        lemma_head_comes(chunks, head, count - 1);
        assert(front.drop_last() =~= before);
        assert(before.push(front.last()) =~= front);
        assert(front[0] == head[0]);
        if count >= stream_len(head) {
            assert(stream_of(front) == stream_of(head));
        }
        if count >= extended_at(head) {
            let at = stream_len(head);
            assert(front.subrange(at, at + 3) =~= head.subrange(at, at + 3) || format_of(head) == 3);
            assert(time_of(chunks.heads, front) == time_of(chunks.heads, head));
        }
        assert(Seq::<u32>::empty() + Seq::<u32>::empty() =~= Seq::<u32>::empty());
    }
}

/// The data of a chunk that has come so far is kept, as long as more is to come.
proof fn lemma_data_comes(chunks: ChunksView, head: ChunkHead, data: Seq<u8>, count: int)
    requires
        chunks.part == (PartView::Data { head, left: data.len() }),
        0 <= count < data.len(),
    ensures
        fed(chunks, data.take(count)) == Some(
            Fed {
                chunks: ChunksView {
                    part: PartView::Data { head, left: (data.len() - count) as nat },
                    data: chunks.data + data.take(count),
                    ..chunks
                },
                windows: Seq::empty(),
            },
        ),
    decreases count,
{
    let front = data.take(count);
    if count == 0 {
        assert(front =~= Seq::empty());
        assert(chunks.data + front =~= chunks.data);
    } else {
        lemma_data_comes(chunks, head, data, count - 1);
        assert(front.drop_last() =~= data.take(count - 1));
        assert((chunks.data + data.take(count - 1)).push(front.last()) =~= chunks.data + front);
        assert(Seq::<u32>::empty() + Seq::<u32>::empty() =~= Seq::<u32>::empty());
    }
}

/// A chunk that comes whole, header and data.
proof fn lemma_chunk_comes(chunks: ChunksView, head: Seq<u8>, data: Seq<u8>)
    requires
        chunks.part == (PartView::Head { bytes: Seq::empty() }),
        head.len() > 0,
        head.len() == head_len(chunks.heads, head),
        format_of(head) == 0 || chunks.heads.contains_key(stream_of(head)),
        chunks.data.len() <= head_of(chunks.heads, head).length ==> data.len() == data_len(
            chunks.limit,
            head_of(chunks.heads, head).length as nat,
            chunks.data.len(),
        ),
    ensures
        time_too_small(chunks.heads, head, chunks.data) || chunks.data.len() > head_of(
            chunks.heads,
            head,
        ).length ==> fed(chunks, head + data) is None,
        !time_too_small(chunks.heads, head, chunks.data) && chunks.data.len() <= head_of(
            chunks.heads,
            head,
        ).length ==> fed(chunks, head + data) == chunk_closed(
            ChunksView { data: chunks.data + data, ..chunks },
            head_of(chunks.heads, head),
        ),
{
    let front = head.drop_last();
    let parsed = head_of(chunks.heads, head);
    assert(front =~= head.take(head.len() - 1));
    lemma_head_comes(chunks, head, head.len() - 1);
    assert(front.push(head.last()) =~= head);
    law_cut_does_not_matter(chunks, head, data);
    if !time_too_small(chunks.heads, head, chunks.data) && chunks.data.len() <= parsed.length {
        if data.len() == 0 {
            assert(data =~= Seq::empty());
            assert(head + data =~= head);
            assert(chunks.data + data =~= chunks.data);
            match chunk_closed(chunks, parsed) {
                Some(closed) => {
                    assert(Seq::<u32>::empty() + closed.windows =~= closed.windows);
                },
                None => {},
            }
        } else {
            let opened = ChunksView {
                part: PartView::Data { head: parsed, left: data.len() },
                ..chunks
            };
            assert(fed(chunks, head) == Some(Fed { chunks: opened, windows: Seq::empty() })) by {
                assert(Seq::<u32>::empty() + Seq::<u32>::empty() =~= Seq::<u32>::empty());
            }
            let most = data.drop_last();
            assert(most =~= data.take(data.len() - 1));
            lemma_data_comes(opened, parsed, data, data.len() - 1);
            assert((chunks.data + most).push(data.last()) =~= chunks.data + data);
            let whole = ChunksView { data: chunks.data + data, ..chunks };
            let whole_open = ChunksView {
                data: chunks.data + data,
                part: PartView::Data { head: parsed, left: 1 },
                ..opened
            };
            assert(chunk_closed(whole_open, parsed) == chunk_closed(whole, parsed));
            match chunk_closed(whole, parsed) {
                Some(closed) => {
                    assert(Seq::<u32>::empty() + closed.windows =~= closed.windows);
                },
                None => {},
            }
        }
    }
}

/// What becomes of a chunk that comes whole between two others. Its format is 0 to 3, from a full
/// header to none. Its chunk stream is in one byte with the format, or in one or two bytes of its
/// own. What a header leaves out is as in the last one on that chunk stream. A timestamp of three
/// bytes that are all 255 is followed by four more. A message is cut into chunks as long as the
/// limit, unless it fits in one.
///
/// The bytes are turned down if the message is made shorter than what has come of it, if the four
/// bytes of a timestamp that is a difference say less than three could, or if this chunk ends a
/// message that cannot be taken apart. Otherwise the data is added to what has come of the message.
/// A message that ends is gone. One of type 1 sets the limit, and one of type 5 announces a window.
pub proof fn law_what_becomes_of_a_chunk(
    chunks: ChunksView,
    format: int,
    stream: u32,
    basic: Seq<u8>,
    fields: Seq<u8>,
    extended: Seq<u8>,
    data: Seq<u8>,
)
    requires
        chunks.part == (PartView::Head { bytes: Seq::empty() }),
        0 <= format <= 3,
        format > 0 ==> chunks.heads.contains_key(stream),
        basic.len() == 1 ==> 2 <= stream < 64 && basic[0] == format * 64 + stream,
        basic.len() == 2 ==> basic[0] == format * 64 && stream == basic[1] + 64,
        basic.len() == 3 ==> basic[0] == format * 64 + 1 && stream == basic[2] * 256 + basic[1] + 64,
        1 <= basic.len() <= 3,
        format == 0 ==> fields.len() == 11,
        format == 1 ==> fields.len() == 7,
        format == 2 ==> fields.len() == 3,
        format == 3 ==> fields.len() == 0,
        ({
            let time = if format < 3 {
                fields[0] * 65536 + fields[1] * 256 + fields[2]
            } else {
                chunks.heads[stream].time as int
            };
            let length = if format < 2 {
                fields[3] * 65536 + fields[4] * 256 + fields[5]
            } else {
                chunks.heads[stream].length as int
            };
            &&& extended.len() == if time >= 0xff_ffff {
                4int
            } else {
                0
            }
            &&& chunks.data.len() <= length ==> data.len() == if length <= chunks.limit {
                length
            } else if length - chunks.data.len() <= chunks.limit {
                length - chunks.data.len()
            } else {
                chunks.limit as int
            }
        }),
    ensures
        ({
            let time = if format < 3 {
                fields[0] * 65536 + fields[1] * 256 + fields[2]
            } else {
                chunks.heads[stream].time as int
            };
            let length = if format < 2 {
                fields[3] * 65536 + fields[4] * 256 + fields[5]
            } else {
                chunks.heads[stream].length as int
            };
            let type_id = if format < 2 {
                fields[6]
            } else {
                chunks.heads[stream].type_id
            };
            let all = chunks.data + data;
            let number = all[0] * 16777216 + all[1] * 65536 + all[2] * 256 + all[3];
            let late = extended[0] * 16777216 + extended[1] * 65536 + extended[2] * 256
                + extended[3];
            let outcome = fed(chunks, basic + fields + extended + data);
            &&& outcome is None <==> {
                ||| chunks.data.len() > length
                ||| extended.len() == 4 && format > 0 && chunks.data.len() == 0 && late < 0xff_ffff
                ||| all.len() == length && !is_handleable(type_id, all)
            }
            &&& outcome matches Some(after) ==> {
                &&& after.chunks.part == (PartView::Head { bytes: Seq::empty() })
                &&& after.chunks.heads == chunks.heads.insert(
                    stream,
                    ChunkHead { stream, time: time as u32, length: length as u32, type_id },
                )
                &&& all.len() != length ==> after.chunks.data == all && after.chunks.limit
                    == chunks.limit && after.windows.len() == 0
                &&& all.len() == length ==> {
                    &&& after.chunks.data.len() == 0
                    &&& after.chunks.limit == if type_id == 1 && all.len() >= 4 && number
                        <= 0x7fff_ffff {
                        number
                    } else {
                        chunks.limit as int
                    }
                    &&& type_id == 5 && all.len() >= 4 ==> after.windows.len() == 1
                        && after.windows[0] == number
                    &&& !(type_id == 5 && all.len() >= 4) ==> after.windows.len() == 0
                }
            }
        }),
{
    let head = basic + fields + extended;
    let at = basic.len() as int;
    let b = head[0];
    assert(b == basic[0]);
    assert(format_of(head) == format);
    assert(basic.len() == 1 ==> b % 64 == stream);
    assert(stream_len(head) == at);
    if at > 1 {
        assert(head[1] == basic[1]);
    }
    if at > 2 {
        assert(head[2] == basic[2]);
    }
    assert(stream_of(head) == stream);
    assert(extended_at(head) == at + fields.len());
    if format < 3 {
        let three = head.subrange(at, at + 3);
        lemma_be_value_bound(three);
        law_be_value_digits(three, 0);
        assert(three[0] == fields[0] && three[1] == fields[1] && three[2] == fields[2]);
    }
    if format < 2 {
        let three = head.subrange(at + 3, at + 6);
        lemma_be_value_bound(three);
        law_be_value_digits(three, 0);
        assert(three[0] == fields[3] && three[1] == fields[4] && three[2] == fields[5]);
        assert(head[at + 6] == fields[6]);
    }
    if extended.len() == 4 {
        let four = head.subrange(at + fields.len(), at + fields.len() + 4);
        assert(four =~= extended);
        law_be_value_digits(extended, 0);
    }
    lemma_chunk_comes(chunks, head, data);
    let all = chunks.data + data;
    if all.len() >= 4 {
        let four = all.take(4);
        lemma_be_value_bound(four);
        law_be_value_digits(four, 0);
        assert(four[0] == all[0] && four[1] == all[1] && four[2] == all[2] && four[3] == all[3]);
    }
}

/// A header that refers to one that never came on its chunk stream is the end: nothing behind it is
/// read.
pub proof fn law_nothing_is_read_behind_a_lost_header(
    chunks: ChunksView,
    format: u8,
    stream: u32,
    rest: Seq<u8>,
)
    requires
        chunks.part == (PartView::Head { bytes: Seq::empty() }),
        1 <= format <= 3,
        2 <= stream < 64,
        !chunks.heads.contains_key(stream),
    ensures
        fed(chunks, seq![(format * 64 + stream) as u8] + rest) matches Some(after)
            && after.chunks.part is Lost && after.chunks.data == chunks.data && after.windows.len()
            == 0,
{
    let first = seq![(format * 64 + stream) as u8];
    assert(first.drop_last() =~= Seq::empty());
    assert(Seq::<u8>::empty().push(first.last()) =~= first);
    assert(first[0] as int / 64 == format);
    assert(first[0] % 64 == stream);
    reveal_with_fuel(fed, 2);
    assert(Seq::<u32>::empty() + Seq::<u32>::empty() =~= Seq::<u32>::empty());
    law_cut_does_not_matter(chunks, first, rest);
    let lost = ChunksView { part: PartView::Lost, ..chunks };
    assert(fed(chunks, first) matches Some(half) && half.chunks == lost);
    law_lost_stays_lost(lost, rest);
}

/// A whole message of a type that is neither a command nor data, in one chunk with a full header and
/// between two messages, can always be gone on with, whatever is in it.
pub proof fn law_other_messages_are_never_turned_down(
    chunks: ChunksView,
    stream: u8,
    fields: Seq<u8>,
    data: Seq<u8>,
)
    requires
        chunks.part == (PartView::Head { bytes: Seq::empty() }),
        chunks.data.len() == 0,
        2 <= stream < 64,
        fields.len() == 11,
        !(fields[0] == 255 && fields[1] == 255 && fields[2] == 255),
        data.len() == fields[3] * 65536 + fields[4] * 256 + fields[5],
        data.len() <= chunks.limit,
        fields[6] != 15,
        fields[6] != 17,
        fields[6] != 18,
        fields[6] != 20,
    ensures
        fed(chunks, seq![stream] + fields + data) matches Some(after) && after.chunks.part == (
        PartView::Head { bytes: Seq::empty() }) && after.chunks.data.len() == 0,
{
    law_only_commands_and_data_are_turned_down(fields[6], chunks.data + data);
    law_what_becomes_of_a_chunk(
        chunks,
        0,
        stream as u32,
        seq![stream],
        fields,
        Seq::empty(),
        data,
    );
    assert(seq![stream] + fields + Seq::empty() + data =~= seq![stream] + fields + data);
}

/// Before the first byte a chunk is at most 128 bytes long, nothing has come of a message, and there
/// is no header to refer to.
pub proof fn law_nothing_at_first()
    ensures
        no_chunks().limit == 128,
        no_chunks().part == (PartView::Head { bytes: Seq::empty() }),
        no_chunks().data.len() == 0,
        forall|stream: u32| !(#[trigger] no_chunks().heads.contains_key(stream)),
{
}

} // verus!
