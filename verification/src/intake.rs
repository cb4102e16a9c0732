//! Whether the session can take what the server sends.
//!
//! The session panics on some bytes: on those that its chunks do not allow for, on messages that it
//! cannot take apart, and on more bytes than it can count. An `Intake` keeps account of all that was
//! handed to a session and tells beforehand.
use crate::chunks::{
    fed, law_other_messages_are_never_turned_down, no_chunks, Chunks, ChunksView, PartView,
};
use vstd::prelude::*;

verus! {

/// What a session holds of the bytes that it was handed, as mathematical values.
pub struct Inbound {
    /// How far the bytes have come, once the session has worked all of them off. `None` if it cannot
    /// go on with them.
    pub chunks: Option<ChunksView>,
    /// How many bytes there were, which the session counts with 64 bits.
    pub received: nat,
    /// How many of them it has not acknowledged, which it counts with 32 bits.
    pub unacked: nat,
    /// The acknowledgement window that it goes by, or `None` before the first is announced, and
    /// behind it those that messages announce which it has yet to work off.
    pub windows: Seq<Option<u32>>,
}

/// What a new session holds.
pub open spec fn nothing_inbound() -> Inbound {
    Inbound { chunks: Some(no_chunks()), received: 0, unacked: 0, windows: seq![None] }
}

/// How many bytes a session counts that it is handed: it counts with 32 bits.
pub open spec fn count_of(bytes: Seq<u8>) -> nat {
    bytes.len() % 0x1_0000_0000
}

/// Whether a session can take bytes. They have to be such that it can go on with every one of them,
/// also where it stops at a message that it refuses and comes back to the rest later.
pub open spec fn can_take(inbound: Inbound, bytes: Seq<u8>) -> bool {
    &&& inbound.chunks matches Some(chunks) && fed(chunks, bytes) is Some
    &&& inbound.received + bytes.len() <= u64::MAX
    &&& inbound.windows[0] is Some ==> inbound.unacked + count_of(bytes) <= u32::MAX
}

/// How many bytes are not acknowledged after so many more have come: an acknowledgement goes out as
/// soon as the window is full. Without a window nothing is counted.
pub open spec fn unacked_after(window: Option<u32>, unacked: nat, more: nat) -> nat {
    match window {
        None => 0,
        Some(window) => if unacked + more >= window {
            0
        } else {
            unacked + more
        },
    }
}

/// The windows that were announced, behind those before.
pub open spec fn windows_after(windows: Seq<Option<u32>>, announced: Seq<u32>) -> Seq<Option<u32>> {
    windows + announced.map_values(|window: u32| Some(window))
}

/// What a session holds after it has taken bytes. It counts them by the window that it goes by, and
/// then works messages off in order. If it has worked all of them off, it goes by the last window.
pub open spec fn has_taken(
    before: Inbound,
    bytes: Seq<u8>,
    worked_off: bool,
    after: Inbound,
) -> bool {
    let fed = fed(before.chunks->Some_0, bytes)->Some_0;
    let windows = windows_after(before.windows, fed.windows);
    &&& after.chunks == Some(fed.chunks)
    &&& after.received == before.received + bytes.len()
    &&& after.unacked == unacked_after(before.windows[0], before.unacked, count_of(bytes))
    &&& 0 < after.windows.len() <= windows.len()
    &&& after.windows == windows.skip(windows.len() - after.windows.len())
    &&& worked_off ==> after.windows.len() == 1
}

/// An account, as mathematical values. Where a call of the session failed, nobody can tell how many
/// of the messages it has worked off, and so by which of the windows it goes.
pub struct IntakeView {
    pub chunks: ChunksView,
    pub received: nat,
    /// At most this many bytes are not acknowledged.
    pub unacked: nat,
    /// Whether it is just so many.
    pub counted: bool,
    /// The last acknowledgement window that was announced, if one was.
    pub window: Option<u32>,
    /// The largest window that the session may go by now or when it has worked off more, or zero.
    pub largest: u32,
    /// Whether the session goes by the last window.
    pub current: bool,
}

/// Whether an account is true of what a session holds.
pub open spec fn accounts_for(intake: IntakeView, inbound: Inbound) -> bool {
    &&& inbound.chunks == Some(intake.chunks)
    &&& inbound.received == intake.received
    &&& inbound.unacked <= intake.unacked
    &&& intake.counted ==> inbound.unacked == intake.unacked
    &&& inbound.windows.len() > 0
    &&& inbound.windows.last() == intake.window
    &&& forall|i: int|
        0 <= i < inbound.windows.len() ==> (#[trigger] inbound.windows[i] matches Some(window)
            ==> window <= intake.largest)
    &&& intake.current ==> inbound.windows.len() == 1
}

/// The account before the first byte.
pub open spec fn nothing_taken() -> IntakeView {
    IntakeView {
        chunks: no_chunks(),
        received: 0,
        unacked: 0,
        counted: true,
        window: None,
        largest: 0,
        current: true,
    }
}

/// Whether an account says exactly what the session holds.
pub open spec fn is_exact(intake: IntakeView) -> bool {
    intake.counted && intake.current
}

/// Whether bytes may be handed to the session, by the account of it.
pub open spec fn admits(intake: IntakeView, bytes: Seq<u8>) -> bool {
    &&& fed(intake.chunks, bytes) is Some
    &&& intake.received + bytes.len() <= u64::MAX
    &&& (intake.current && intake.window is None) || intake.unacked + count_of(bytes) <= u32::MAX
}

/// The largest of a number and the windows announced.
pub open spec fn largest_of(most: u32, announced: Seq<u32>) -> u32
    decreases announced.len(),
{
    if announced.len() == 0 {
        most
    } else {
        let before = largest_of(most, announced.drop_last());
        if announced.last() > before {
            announced.last()
        } else {
            before
        }
    }
}

/// The account after bytes were handed to the session, whatever came of it.
pub open spec fn taken(intake: IntakeView, bytes: Seq<u8>) -> IntakeView {
    let fed = fed(intake.chunks, bytes)->Some_0;
    let more = intake.unacked + count_of(bytes);
    IntakeView {
        chunks: fed.chunks,
        received: intake.received + bytes.len(),
        unacked: if is_exact(intake) {
            unacked_after(intake.window, intake.unacked, count_of(bytes))
        } else if more < intake.largest {
            more
        } else if intake.largest > 0 {
            (intake.largest - 1) as nat
        } else {
            0
        },
        counted: is_exact(intake),
        window: if fed.windows.len() > 0 {
            Some(fed.windows.last())
        } else {
            intake.window
        },
        largest: largest_of(intake.largest, fed.windows),
        current: intake.current && fed.windows.len() == 0,
    }
}

/// The account once the session has worked off all that it was handed.
pub open spec fn caught_up(intake: IntakeView) -> IntakeView {
    IntakeView {
        largest: match intake.window {
            Some(window) => window,
            None => 0,
        },
        current: true,
        ..intake
    }
}

/// The account after bytes were handed to the session, and it worked them off or did not.
pub open spec fn account_after(intake: IntakeView, bytes: Seq<u8>, worked_off: bool) -> IntakeView {
    if worked_off {
        caught_up(taken(intake, bytes))
    } else {
        taken(intake, bytes)
    }
}

/// The largest is none smaller than any.
proof fn lemma_largest(most: u32, announced: Seq<u32>)
    ensures
        most <= largest_of(most, announced),
        forall|i: int|
            0 <= i < announced.len() ==> #[trigger] announced[i] <= largest_of(most, announced),
    decreases announced.len(),
{
    if announced.len() > 0 {
        let front = announced.drop_last();
        lemma_largest(most, front);
        assert forall|i: int| 0 <= i < announced.len() implies #[trigger] announced[i]
            <= largest_of(most, announced) by {
            if i < front.len() {
                assert(front[i] == announced[i]);
            }
        }
    }
}

/// A true account lets nothing through that the session cannot take, and stays true.
pub proof fn law_account_stays_true(
    intake: IntakeView,
    inbound: Inbound,
    bytes: Seq<u8>,
    worked_off: bool,
    after: Inbound,
)
    requires
        accounts_for(intake, inbound),
        admits(intake, bytes),
    ensures
        can_take(inbound, bytes),
        has_taken(inbound, bytes, worked_off, after) ==> accounts_for(
            account_after(intake, bytes, worked_off),
            after,
        ),
{
    if has_taken(inbound, bytes, worked_off, after) {
        let announced = fed(intake.chunks, bytes)->Some_0.windows;
        let windows = windows_after(inbound.windows, announced);
        lemma_largest(intake.largest, announced);
        assert(after.windows.last() == windows.last());
        assert forall|i: int| 0 <= i < windows.len() implies (#[trigger] windows[i] matches Some(
            window,
        ) ==> window <= largest_of(intake.largest, announced)) by {
            if i < inbound.windows.len() {
                assert(windows[i] == inbound.windows[i]);
            } else {
                assert(windows[i] == Some(announced[i - inbound.windows.len()]));
            }
        }
        assert forall|i: int| 0 <= i < after.windows.len() implies (
        #[trigger] after.windows[i] matches Some(window) ==> window <= account_after(
            intake,
            bytes,
            worked_off,
        ).largest) by {
            assert(after.windows[i] == windows[windows.len() - after.windows.len() + i]);
        }
    }
}

/// An exact account turns down just what the session cannot take. It is exact at first, and stays
/// exact as long as the session works off what it is handed, and also where it does not, unless a
/// window is announced just then.
pub proof fn law_account_is_exact(
    intake: IntakeView,
    inbound: Inbound,
    bytes: Seq<u8>,
    worked_off: bool,
)
    requires
        accounts_for(intake, inbound),
        is_exact(intake),
    ensures
        is_exact(nothing_taken()),
        admits(intake, bytes) <==> can_take(inbound, bytes),
        worked_off || fed(intake.chunks, bytes)->Some_0.windows.len() == 0 ==> is_exact(
            account_after(intake, bytes, worked_off),
        ),
{
    assert(inbound.windows[0] == inbound.windows.last());
}

/// An account of all that was handed to a session.
#[derive(Debug)]
pub struct Intake {
    chunks: Chunks,
    received: u64,
    unacked: u32,
    counted: bool,
    window: Option<u32>,
    largest: u32,
    current: bool,
}

impl View for Intake {
    type V = IntakeView;

    closed spec fn view(&self) -> IntakeView {
        IntakeView {
            chunks: self.chunks@,
            received: self.received as nat,
            unacked: self.unacked as nat,
            counted: self.counted,
            window: self.window,
            largest: self.largest,
            current: self.current,
        }
    }
}

impl Intake {
    /// Whether the account is one that can be gone on with.
    pub closed spec fn valid(&self) -> bool {
        self.chunks.valid()
    }

    /// The account of a new session.
    pub fn new() -> (intake: Intake)
        ensures
            intake.valid(),
            intake@ == nothing_taken(),
    {
        Intake {
            chunks: Chunks::new(),
            received: 0,
            unacked: 0,
            counted: true,
            window: None,
            largest: 0,
            current: true,
        }
    }

    /// Tells whether bytes may be handed to the session, and if so takes them into account. If not,
    /// the account is of no more use.
    pub fn take_in(&mut self, bytes: &[u8]) -> (admitted: bool)
        requires
            old(self).valid(),
        ensures
            admitted == admits(old(self)@, bytes@),
            admitted ==> final(self).valid() && final(self)@ == taken(old(self)@, bytes@),
    {
        let len: u64 = bytes.len() as u64;
        let count: u64 = len % 0x1_0000_0000;
        let more: u64 = self.unacked as u64 + count;
        let uncounted: bool = self.current && self.window.is_none();
        if len > u64::MAX - self.received || (!uncounted && more > u32::MAX as u64) {
            return false;
        }
        let windows = match self.chunks.feed(bytes) {
            None => {
                return false;
            },
            Some(windows) => windows,
        };
        self.received = self.received + len;
        self.unacked = if self.counted && self.current {
            match self.window {
                None => 0,
                Some(window) => if more >= window as u64 {
                    0
                } else {
                    more as u32
                },
            }
        } else if more < self.largest as u64 {
            more as u32
        } else if self.largest > 0 {
            self.largest - 1
        } else {
            0
        };
        self.counted = self.counted && self.current;
        let ghost before = self@;
        let mut i: usize = 0;
        assert(windows@.take(0) =~= Seq::empty());
        while i < windows.len()
            invariant
                i <= windows@.len(),
                self.valid(),
                self@ == (IntakeView {
                    window: if i > 0 {
                        Some(windows@[i - 1])
                    } else {
                        before.window
                    },
                    largest: largest_of(before.largest, windows@.take(i as int)),
                    current: before.current && i == 0,
                    ..before
                }),
            decreases windows@.len() - i,
        {
            let window: u32 = windows[i];
            assert(windows@.take(i + 1).drop_last() =~= windows@.take(i as int));
            self.window = Some(window);
            if window > self.largest {
                self.largest = window;
            }
            self.current = false;
            i = i + 1;
        }
        assert(windows@.take(i as int) =~= windows@);
        true
    }

    /// Takes into account that the session has worked off all that it was handed.
    pub fn catch_up(&mut self)
        requires
            old(self).valid(),
        ensures
            final(self).valid(),
            final(self)@ == caught_up(old(self)@),
    {
        self.largest = match self.window {
            Some(window) => window,
            None => 0,
        };
        self.current = true;
    }
}

/// Bytes are turned down only where the session cannot go on with them, or cannot count them: all of
/// them with 64 bits, or those without an acknowledgement with 32, once a window is announced.
pub proof fn law_what_is_turned_down(intake: IntakeView, bytes: Seq<u8>)
    ensures
        admits(intake, bytes) <==> {
            &&& fed(intake.chunks, bytes) is Some
            &&& intake.received + bytes.len() <= 0xffff_ffff_ffff_ffff
            &&& (intake.current && intake.window is None) || intake.unacked + bytes.len()
                % 0x1_0000_0000 <= 0xffff_ffff
        },
{
}

/// A whole message that is neither a command nor data, in one chunk with a full header and between
/// two messages, is admitted whatever is in it, as long as the bytes can be counted.
pub proof fn law_other_messages_are_admitted(
    intake: IntakeView,
    stream: u8,
    fields: Seq<u8>,
    data: Seq<u8>,
)
    requires
        intake.chunks.part == (PartView::Head { bytes: Seq::empty() }),
        intake.chunks.data.len() == 0,
        intake.received + 12 + data.len() <= 0xffff_ffff_ffff_ffff,
        (intake.current && intake.window is None) || intake.unacked + 12 + data.len() <= 0xffff_ffff,
        2 <= stream < 64,
        fields.len() == 11,
        !(fields[0] == 255 && fields[1] == 255 && fields[2] == 255),
        data.len() == fields[3] * 65536 + fields[4] * 256 + fields[5],
        data.len() <= intake.chunks.limit,
        fields[6] != 15,
        fields[6] != 17,
        fields[6] != 18,
        fields[6] != 20,
    ensures
        admits(intake, seq![stream] + fields + data),
{
    law_other_messages_are_never_turned_down(intake.chunks, stream, fields, data);
    let bytes = seq![stream] + fields + data;
    assert(bytes.len() == 12 + data.len());
    assert(bytes.len() < 0x1_0000_0000);
}

/// The account counts every byte. As long as it is exact, it counts those without an acknowledgement
/// as the session does: an acknowledgement goes out, and the count starts again, when it reaches the
/// window; without a window there is no count. It keeps the last window that was announced.
pub proof fn law_account_counts_every_byte(intake: IntakeView, bytes: Seq<u8>, worked_off: bool)
    requires
        admits(intake, bytes),
    ensures
        ({
            let after = account_after(intake, bytes, worked_off);
            let announced = fed(intake.chunks, bytes)->Some_0.windows;
            &&& after.chunks == fed(intake.chunks, bytes)->Some_0.chunks
            &&& after.received == intake.received + bytes.len()
            &&& intake.counted && intake.current ==> after.counted
            &&& intake.counted && intake.current && intake.window is None ==> after.unacked == 0
            &&& intake.counted && intake.current ==> (intake.window matches Some(window)
                ==> after.unacked == if intake.unacked + bytes.len() % 0x1_0000_0000 >= window {
                0
            } else {
                intake.unacked + bytes.len() % 0x1_0000_0000
            })
            &&& announced.len() > 0 ==> after.window == Some(announced.last())
            &&& announced.len() == 0 ==> after.window == intake.window
            &&& worked_off ==> after.current
        }),
{
}

} // verus!
