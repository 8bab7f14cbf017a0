//! The wire format: each sample travels as the four bytes of its IEEE-754
//! single-precision bit pattern, most significant byte first, with no
//! header and no length prefix.

use vstd::prelude::*;

verus! {

/// The number of bytes one sample takes on the wire.
pub const SAMPLE_BYTES: usize = 4;

/// The four bytes of `bits`, most significant first.
pub open spec fn encoded(bits: u32) -> Seq<u8> {
    seq![
        (bits / 0x100_0000) as u8,
        (bits / 0x1_0000 % 0x100) as u8,
        (bits / 0x100 % 0x100) as u8,
        (bits % 0x100) as u8,
    ]
}

/// The bit pattern whose big-endian bytes are the first four of `bytes`.
pub open spec fn decoded(bytes: Seq<u8>) -> u32 {
    (bytes[0] * 0x100_0000 + bytes[1] * 0x1_0000 + bytes[2] * 0x100 + bytes[3]) as u32
}

/// Encodes one sample, given as its bit pattern, for the wire.
pub fn encode_sample(bits: u32) -> (bytes: [u8; 4])
    ensures
        bytes@ == encoded(bits),
{
    let bytes: [u8; 4] = [
        (bits / 0x100_0000) as u8,
        (bits / 0x1_0000 % 0x100) as u8,
        (bits / 0x100 % 0x100) as u8,
        (bits % 0x100) as u8,
    ];
    assert(bytes@ =~= encoded(bits));
    bytes
}

/// Decodes one sample from its four bytes on the wire. Every four bytes
/// are a sample: there is no malformed frame.
pub fn decode_sample(bytes: &[u8; 4]) -> (bits: u32)
    ensures
        bits == decoded(bytes@),
{
    let b0: u32 = bytes[0] as u32;
    let b1: u32 = bytes[1] as u32;
    let b2: u32 = bytes[2] as u32;
    let b3: u32 = bytes[3] as u32;
    b0 * 0x100_0000 + b1 * 0x1_0000 + b2 * 0x100 + b3
}

/// Decoding what was encoded gives the sample back, bit for bit, whatever
/// the pattern: zeros of either sign, infinities and every NaN included.
pub proof fn lemma_decode_encode(bits: u32)
    ensures
        encoded(bits).len() == 4,
        decoded(encoded(bits)) == bits,
{
}

/// Encoding what was decoded gives the same four bytes back.
pub proof fn lemma_encode_decode(bytes: Seq<u8>)
    requires
        bytes.len() == 4,
    ensures
        encoded(decoded(bytes)) == bytes,
{
    assert(encoded(decoded(bytes)) =~= bytes);
}

/// Two samples with the same bytes on the wire are the same sample.
pub proof fn lemma_encoding_injective(a: u32, b: u32)
    requires
        encoded(a) == encoded(b),
    ensures
        a == b,
{
    lemma_decode_encode(a);
    lemma_decode_encode(b);
}

} // verus!
