//! Big-endian integers at the front of a byte slice.
use vstd::prelude::*;

verus! {

/// The number that a sequence of bytes spells, most significant byte first.
pub open spec fn be_value(bytes: Seq<u8>) -> nat
    decreases bytes.len(),
{
    if bytes.len() == 0 {
        0
    } else {
        be_value(bytes.drop_last()) * 256 + bytes.last() as nat
    }
}

/// Three bytes, written out.
pub proof fn lemma_be_value_3(bytes: Seq<u8>)
    requires
        bytes.len() == 3,
    ensures
        be_value(bytes) == bytes[0] * 65536 + bytes[1] * 256 + bytes[2],
{
    reveal_with_fuel(be_value, 4);
}

/// A big-endian number of `n` bytes is below 256 to the power `n`, for the sizes in use here.
pub proof fn lemma_be_value_bound(bytes: Seq<u8>)
    ensures
        bytes.len() == 3 ==> be_value(bytes) < 0x100_0000,
        bytes.len() == 4 ==> be_value(bytes) < 0x1_0000_0000,
{
    reveal_with_fuel(be_value, 5);
}

/// Calls `nom::number::complete::be_u32`. The contract claims that it succeeds on four bytes or
/// more, and then gives the number that the first four spell.
#[verifier::external_body]
pub(crate) fn be_u32(input: &[u8]) -> (value: Option<u32>)
    ensures
        value is Some <==> input@.len() >= 4,
        value matches Some(v) ==> v == be_value(input@.take(4)),
{
    let parsed: nom::IResult<&[u8], u32> = nom::number::complete::be_u32(input);
    parsed.ok().map(|(_, value)| value)
}

/// The number that three bytes from `at` on spell.
pub fn be_u24(input: &[u8], at: usize) -> (value: u32)
    requires
        at + 3 <= input@.len(),
    ensures
        value == be_value(input@.subrange(at as int, at + 3)),
        value < 0x100_0000,
{
    proof {
        lemma_be_value_3(input@.subrange(at as int, at + 3));
    }
    input[at] as u32 * 65536 + input[at + 1] as u32 * 256 + input[at + 2] as u32
}

/// Bytes spell a number digit by digit in base 256, the most significant first.
pub proof fn law_be_value_digits(bytes: Seq<u8>, byte: u8)
    ensures
        be_value(Seq::empty()) == 0,
        be_value(bytes.push(byte)) == be_value(bytes) * 256 + byte,
        bytes.len() == 3 ==> be_value(bytes) == bytes[0] * 65536 + bytes[1] * 256 + bytes[2],
        bytes.len() == 4 ==> be_value(bytes) == bytes[0] * 16777216 + bytes[1] * 65536 + bytes[2]
            * 256 + bytes[3],
{
    reveal_with_fuel(be_value, 5);
    assert(bytes.push(byte).drop_last() =~= bytes);
}

} // verus!
