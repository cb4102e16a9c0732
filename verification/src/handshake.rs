//! The RTMP handshake, which comes before the session.
use crate::error::PublishError;
use crate::inbound::all_read;
use rml_rtmp::handshake::{Handshake, HandshakeError, HandshakeProcessResult, PeerType};
use vstd::prelude::*;

verus! {

/// A handshake in progress.
#[verifier::external_type_specification]
#[verifier::external_body]
pub struct ExHandshake(Handshake);

/// How the handshake stands after some bytes from the server.
#[derive(Debug)]
pub enum HandshakeStep {
    /// More bytes are needed.
    InProgress { response_bytes: Vec<u8> },
    /// The handshake is done. What was received beyond it belongs to the session.
    Completed { response_bytes: Vec<u8>, remaining_bytes: Vec<u8> },
}

/// What to do after some bytes from the server.
#[derive(Debug)]
pub struct HandshakeReply {
    /// What to send to the server.
    pub response: Vec<u8>,
    /// What was received beyond the handshake, once it is done.
    pub leftover: Option<Vec<u8>>,
}

/// The length of the two packets that open the handshake.
pub const OPENING_LEN: usize = 1537;

/// The length of the packet that the server's opening is answered with, and of the one in which the
/// server answers ours.
pub const PACKET_LEN: usize = 1536;

/// The length of all that the server sends in the handshake: its opening, and its answer to ours.
pub const SERVER_LEN: usize = 3073;

/// The version of the handshake, which is the first byte of an opening.
pub const VERSION: u8 = 3;

/// A handshake that `Handshake::new` gives to a client.
pub uninterp spec fn client_created(handshake: Handshake) -> bool;

/// How many bytes of the server's part a handshake still waits for, once it was opened and as long
/// as it has not failed. None are left when it is done.
pub uninterp spec fn awaited(handshake: Handshake) -> Option<nat>;

/// `Handshake::generate_outbound_p0_and_p1` may give this outcome.
pub uninterp spec fn opening_generated(
    before: Handshake,
    outcome: Result<Vec<u8>, HandshakeError>,
    after: Handshake,
) -> bool;

/// `Handshake::process_bytes` with these bytes may give this outcome.
pub uninterp spec fn bytes_processed(
    before: Handshake,
    bytes: Seq<u8>,
    outcome: Result<HandshakeStep, HandshakeError>,
    after: Handshake,
) -> bool;

/// Calls `Handshake::new` for a client. The contract only gives the new handshake a name.
#[verifier::external_body]
pub(crate) fn new_client_handshake() -> (handshake: Handshake)
    ensures
        client_created(handshake),
{
    Handshake::new(PeerType::Client)
}

/// Whether the server's part begins with another version, if `left` bytes of it were still to come.
pub open spec fn wrong_version(left: nat, bytes: Seq<u8>) -> bool {
    left == SERVER_LEN && bytes.len() > 0 && bytes[0] != VERSION
}

/// How many bytes of the server's part are still to come after these, if `left` were before.
pub open spec fn left_after(left: nat, bytes: Seq<u8>) -> nat {
    if bytes.len() < left {
        (left - bytes.len()) as nat
    } else {
        0
    }
}

/// How long the response is to bytes of which `left` were still to come: the server's opening is
/// answered with one packet as soon as all of it is there.
pub open spec fn response_len(left: nat, bytes: Seq<u8>) -> nat {
    if left > PACKET_LEN && bytes.len() >= left - PACKET_LEN {
        PACKET_LEN as nat
    } else {
        0
    }
}

/// What a step of a handshake looks like that still waited for `left` bytes and was handed these.
pub open spec fn step_fits(
    left: nat,
    bytes: Seq<u8>,
    step: Result<HandshakeStep, HandshakeError>,
) -> bool {
    match step {
        Err(_) => left == 0 || wrong_version(left, bytes),
        Ok(HandshakeStep::InProgress { response_bytes }) => {
            &&& bytes.len() < left
            &&& !wrong_version(left, bytes)
            &&& response_bytes@.len() == response_len(left, bytes)
        },
        Ok(HandshakeStep::Completed { response_bytes, remaining_bytes }) => {
            &&& 0 < left <= bytes.len()
            &&& !wrong_version(left, bytes)
            &&& response_bytes@.len() == response_len(left, bytes)
            &&& remaining_bytes@ == bytes.skip(left as int)
        },
    }
}

/// Calls `Handshake::generate_outbound_p0_and_p1`. The contract claims that it always succeeds, and
/// gives the version and a packet of 1536 bytes behind it, most of which is random. A handshake
/// that is new then waits for all of the server's part.
#[verifier::external_body]
pub(crate) fn generate_opening(handshake: &mut Handshake) -> (outcome: Result<
    Vec<u8>,
    HandshakeError,
>)
    ensures
        opening_generated(*old(handshake), outcome, *final(handshake)),
        outcome is Ok,
        outcome->Ok_0@.len() == OPENING_LEN,
        outcome->Ok_0@[0] == VERSION,
        client_created(*old(handshake)) ==> awaited(*final(handshake)) == Some(SERVER_LEN as nat),
{
    handshake.generate_outbound_p0_and_p1()
}

/// Calls `Handshake::process_bytes`. The contract claims that the outcome is one that the call can
/// have on this handshake and these bytes; part of the response is random. Of a handshake that
/// waits for bytes it claims when the call fails, when the handshake is done, how long the response
/// is, and that what remains are the bytes behind the server's part. The content of the server's
/// packets is not checked. A handshake that is done takes no more bytes.
#[verifier::external_body]
pub(crate) fn process_bytes(handshake: &mut Handshake, bytes: &[u8]) -> (outcome: Result<
    HandshakeStep,
    HandshakeError,
>)
    ensures
        bytes_processed(*old(handshake), bytes@, outcome, *final(handshake)),
        awaited(*old(handshake)) matches Some(left) ==> step_fits(left, bytes@, outcome),
        awaited(*old(handshake)) matches Some(left) ==> outcome is Ok ==> awaited(*final(handshake))
            == Some(left_after(left, bytes@)),
{
    handshake.process_bytes(bytes).map(|step| match step {
        HandshakeProcessResult::InProgress { response_bytes } =>
            HandshakeStep::InProgress { response_bytes },
        HandshakeProcessResult::Completed { response_bytes, remaining_bytes } =>
            HandshakeStep::Completed { response_bytes, remaining_bytes },
    })
}

/// What a step of the handshake leads to: the response is sent either way, and the session starts
/// once there is a leftover.
pub open spec fn reply_of(step: Result<HandshakeStep, HandshakeError>) -> Result<
    HandshakeReply,
    PublishError,
> {
    match step {
        Ok(HandshakeStep::InProgress { response_bytes }) => Ok(
            HandshakeReply { response: response_bytes, leftover: None },
        ),
        Ok(HandshakeStep::Completed { response_bytes, remaining_bytes }) => Ok(
            HandshakeReply { response: response_bytes, leftover: Some(remaining_bytes) },
        ),
        Err(error) => Err(PublishError::Handshake(error)),
    }
}

/// Decides what a step of the handshake leads to.
pub fn handshake_reply(step: Result<HandshakeStep, HandshakeError>) -> (reply: Result<
    HandshakeReply,
    PublishError,
>)
    ensures
        reply == reply_of(step),
{
    match step {
        Ok(HandshakeStep::InProgress { response_bytes }) => Ok(
            HandshakeReply { response: response_bytes, leftover: None },
        ),
        Ok(HandshakeStep::Completed { response_bytes, remaining_bytes }) => Ok(
            HandshakeReply { response: response_bytes, leftover: Some(remaining_bytes) },
        ),
        Err(error) => Err(PublishError::Handshake(error)),
    }
}

/// Opens a handshake as a client: the handshake, and what to send first.
pub fn start_handshake() -> (opened: Result<(Handshake, Vec<u8>), PublishError>)
    ensures
        opened is Ok,
        opened->Ok_0.1@.len() == OPENING_LEN,
        opened->Ok_0.1@[0] == VERSION,
        awaited(opened->Ok_0.0) == Some(SERVER_LEN as nat),
        exists|new: Handshake| #[trigger]
            client_created(new) && opening_generated(
                new,
                Ok::<Vec<u8>, HandshakeError>(opened->Ok_0.1),
                opened->Ok_0.0,
            ),
{
    let mut handshake = new_client_handshake();
    match generate_opening(&mut handshake) {
        Ok(opening) => Ok((handshake, opening)),
        Err(error) => Err(PublishError::Handshake(error)),
    }
}

/// Hands bytes from the server to the handshake. Where the handshake waits for the server's part,
/// it goes on unless that begins with another version, is done as soon as all of it is there, and
/// hands back what came behind it.
pub fn continue_handshake(handshake: &mut Handshake, bytes: &[u8]) -> (reply: Result<
    HandshakeReply,
    PublishError,
>)
    ensures
        exists|step: Result<HandshakeStep, HandshakeError>|
            #[trigger] bytes_processed(*old(handshake), bytes@, step, *final(handshake)) && reply
                == reply_of(step),
        awaited(*old(handshake)) matches Some(left) ==> {
            &&& reply is Err <==> left == 0 || wrong_version(left, bytes@)
            &&& reply matches Ok(next) ==> {
                &&& awaited(*final(handshake)) == Some(left_after(left, bytes@))
                &&& next.response@.len() == response_len(left, bytes@)
                &&& next.leftover is Some <==> left <= bytes@.len()
                &&& next.leftover matches Some(rest) ==> rest@ == bytes@.skip(left as int)
            }
        },
{
    let step = process_bytes(handshake, bytes);
    handshake_reply(step)
}

/// What the session gets of a number of reads, if `left` bytes of the server's part in the handshake
/// were to come before them: what the read that ends the handshake gave beyond it, and all later
/// reads. `None` if the handshake does not end.
pub open spec fn passed_on(left: nat, reads: Seq<Seq<u8>>) -> Option<Seq<u8>>
    decreases reads.len(),
{
    if reads.len() == 0 {
        None
    } else if left <= reads[0].len() {
        Some(reads[0].skip(left as int) + all_read(reads.skip(1)))
    } else {
        passed_on(left_after(left, reads[0]), reads.skip(1))
    }
}

/// However the server's bytes are cut into reads, the handshake ends as soon as all of its part is
/// there, and the session gets every byte that comes behind it, in order.
pub proof fn law_session_gets_what_follows(left: nat, reads: Seq<Seq<u8>>)
    requires
        left > 0,
    ensures
        passed_on(left, reads) == if all_read(reads).len() >= left {
            Some(all_read(reads).skip(left as int))
        } else {
            None
        },
    decreases reads.len(),
{
    if reads.len() > 0 {
        let first = reads[0];
        let rest = all_read(reads.skip(1));
        if left <= first.len() {
            assert((first + rest).skip(left as int) =~= first.skip(left as int) + rest);
        } else {
            let later = left_after(left, first);
            law_session_gets_what_follows(later, reads.skip(1));
            if rest.len() >= later {
                assert((first + rest).skip(left as int) =~= rest.skip(later as int));
            }
        }
    }
}

/// The response of a step is sent whether or not the handshake is done. What remains is there for
/// the session exactly if it is done. An error ends it.
pub proof fn law_reply_hands_everything_on(step: Result<HandshakeStep, HandshakeError>)
    ensures
        step matches Err(error) ==> reply_of(step) == Err::<HandshakeReply, PublishError>(
            PublishError::Handshake(error),
        ),
        step matches Ok(HandshakeStep::InProgress { response_bytes }) ==> {
            &&& reply_of(step) matches Ok(reply)
            &&& reply.response == response_bytes
            &&& reply.leftover is None
        },
        step matches Ok(HandshakeStep::Completed { response_bytes, remaining_bytes }) ==> {
            &&& reply_of(step) matches Ok(reply)
            &&& reply.response == response_bytes
            &&& reply.leftover == Some(remaining_bytes)
        },
{
}

/// The server sends 3073 bytes, of which the first is 3, and is answered with 1536 bytes once when
/// 1537 of them have come. Those that are still to come are counted down to none.
pub proof fn law_handshake_is_counted_down(left: nat, bytes: Seq<u8>)
    ensures
        left_after(left, bytes) + bytes.len() >= left,
        left_after(left, bytes) > 0 ==> left_after(left, bytes) + bytes.len() == left,
        bytes.len() >= left ==> left_after(left, bytes) == 0,
        wrong_version(left, bytes) <==> left == 3073 && bytes.len() > 0 && bytes[0] != 3,
        left > 1536 && left_after(left, bytes) <= 1536 <==> response_len(left, bytes) == 1536,
        !(left > 1536 && left_after(left, bytes) <= 1536) <==> response_len(left, bytes) == 0,
{
}

/// A step of a handshake that waits for bytes fails only on another version, is in progress exactly
/// as long as there are bytes to come, and hands back just those bytes that come behind the last.
pub proof fn law_step_ends_with_the_last_byte(
    left: nat,
    bytes: Seq<u8>,
    step: Result<HandshakeStep, HandshakeError>,
)
    requires
        0 < left,
        step_fits(left, bytes, step),
    ensures
        step is Err <==> left == 3073 && bytes.len() > 0 && bytes[0] != 3,
        step matches Ok(HandshakeStep::InProgress { .. }) ==> bytes.len() < left,
        step matches Ok(HandshakeStep::Completed { response_bytes, remaining_bytes })
            ==> remaining_bytes@.len() + left == bytes.len() && (forall|i: int|
            0 <= i < remaining_bytes@.len() ==> #[trigger] remaining_bytes@[i] == bytes[left + i]),
{
}

} // verus!
