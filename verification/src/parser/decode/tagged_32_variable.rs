//! The `TAG2_3SVARIABLE` encoding: three signed numbers behind a tag of two bits.
use vstd::arithmetic::power2::{lemma2_to64, pow2};
use vstd::prelude::*;

use super::{sign_extend, two_complement};
use crate::parser::{InternalError, InternalResult};
use crate::reader::{after_read, little_endian, little_endian_bound, Reader};

verus! {

/// How many numbers one encoded group holds.
pub const COUNT: usize = 3;

/// How many bytes the number `i` takes where the tag leaves the widths to the six bits below it:
/// two bits for each number, the lowest two for the first.
pub open spec fn wide_width(first: u8, i: nat) -> nat {
    let selector = if i == 0 {
        first % 4
    } else if i == 1 {
        (first / 4) % 4
    } else {
        (first / 16) % 4
    };
    selector as nat + 1
}

/// How many bytes the tag and the first `n` numbers of such a group take.
pub open spec fn wide_length(first: u8, n: nat) -> nat
    decreases n,
{
    if n == 0 {
        1
    } else {
        wide_length(first, (n - 1) as nat) + wide_width(first, (n - 1) as nat)
    }
}

/// The number `i` of such a group.
pub open spec fn wide_number(bytes: Seq<u8>, i: nat) -> int {
    let first = bytes[0];
    let own = bytes.subrange(wide_length(first, i) as int, wide_length(first, i + 1) as int);
    two_complement(little_endian(own), 8 * wide_width(first, i))
}

/// How many bytes a group takes that starts with `first`.
pub open spec fn group_length(first: u8) -> nat {
    match first / 64 {
        0 => 1,
        1 => 2,
        2 => 3,
        _ => wide_length(first, 3),
    }
}

/// The three numbers of the group that `bytes` starts with; none where the group is cut short.
///
/// The tag is the two highest bits of the first byte. Behind the tags 0, 1 and 2 the numbers stand
/// in 2-2-2, 5-5-4 and 8-7-7 bits, the highest bits first.
pub open spec fn group_numbers(bytes: Seq<u8>) -> Option<Seq<int>> {
    if bytes.len() == 0 || bytes.len() < group_length(bytes[0]) {
        None
    } else {
        let b0 = bytes[0] as nat;
        match bytes[0] / 64 {
            0 => Some(
                seq![
                    two_complement((b0 / 16) % 4, 2),
                    two_complement((b0 / 4) % 4, 2),
                    two_complement(b0 % 4, 2),
                ],
            ),
            1 => {
                let word = 256 * b0 + bytes[1] as nat;
                Some(
                    seq![
                        two_complement((word / 512) % 32, 5),
                        two_complement((word / 16) % 32, 5),
                        two_complement(word % 16, 4),
                    ],
                )
            },
            2 => {
                let word = 65536 * b0 + 256 * bytes[1] as nat + bytes[2] as nat;
                Some(
                    seq![
                        two_complement((word / 16384) % 256, 8),
                        two_complement((word / 128) % 128, 7),
                        two_complement(word % 128, 7),
                    ],
                )
            },
            _ => Some(seq![wide_number(bytes, 0), wide_number(bytes, 1), wide_number(bytes, 2)]),
        }
    }
}

/// How many bytes are read of a group that may be cut short: all of it, or every byte or number
/// that is there whole.
pub open spec fn bytes_read(bytes: Seq<u8>) -> nat {
    if bytes.len() == 0 {
        0
    } else if bytes.len() >= group_length(bytes[0]) {
        group_length(bytes[0])
    } else if bytes[0] / 64 < 3 {
        bytes.len()
    } else if bytes.len() < wide_length(bytes[0], 1) {
        1
    } else if bytes.len() < wide_length(bytes[0], 2) {
        wide_length(bytes[0], 1)
    } else {
        wide_length(bytes[0], 2)
    }
}

fn read_u8_or_eof(data: &mut Reader) -> (byte: InternalResult<u8>)
    ensures
        byte == (if old(data)@.len() > 0 {
            Ok(old(data)@[0])
        } else {
            Err::<u8, InternalError>(InternalError::Eof)
        }),
        final(data)@ == after_read(old(data)@, 1),
{
    match data.read_u8() {
        Some(byte) => Ok(byte),
        None => Err(InternalError::Eof),
    }
}

/// Reads a signed number of `selector + 1` bytes.
fn read_wide(data: &mut Reader, selector: u8) -> (value: InternalResult<i32>)
    requires
        selector < 4,
    ensures
        match value {
            Ok(v) => old(data)@.len() >= selector + 1 && v == two_complement(
                little_endian(old(data)@.take(selector + 1)),
                (8 * (selector + 1)) as nat,
            ),
            Err(e) => e == InternalError::Eof && old(data)@.len() < selector + 1,
        },
        final(data)@ == after_read(old(data)@, (selector + 1) as nat),
{
    let ghost bytes = data@;
    proof {
        lemma2_to64();
        if bytes.len() >= selector + 1 {
            little_endian_bound(bytes.take(selector + 1), (selector + 1) as nat);
        }
    }
    match selector {
        // 8 bits
        0 => {
            let byte: u8 = match read_u8_or_eof(data) {
                Ok(byte) => byte,
                Err(e) => return Err(e),
            };
            proof {
                reveal_with_fuel(little_endian, 2);
            }
            Ok(sign_extend::<8>(byte as u32))
        },
        // 16 bits
        1 => match data.read_u16() {
            Some(v) => Ok(sign_extend::<16>(v as u32)),
            None => Err(InternalError::Eof),
        },
        // 24 bits
        2 => match data.read_u24() {
            Some(v) => Ok(sign_extend::<24>(v)),
            None => Err(InternalError::Eof),
        },
        // 32 bits
        _ => match data.read_u32() {
            Some(v) => Ok(sign_extend::<32>(v)),
            None => Err(InternalError::Eof),
        },
    }
}

/// How many bytes each number of a group adds.
proof fn wide_lengths(first: u8)
    ensures
        wide_length(first, 0) == 1,
        wide_length(first, 1) == 1 + wide_width(first, 0),
        wide_length(first, 2) == 1 + wide_width(first, 0) + wide_width(first, 1),
        wide_length(first, 3) == 1 + wide_width(first, 0) + wide_width(first, 1) + wide_width(
            first,
            2,
        ),
{
    reveal_with_fuel(wide_length, 4);
}

/// Reads the numbers behind a first byte with the tag 3.
fn read_wide_group(data: &mut Reader, first: u8, Ghost(bytes): Ghost<Seq<u8>>) -> (numbers:
    InternalResult<[i32; COUNT]>)
    requires
        first / 64 == 3,
        bytes.len() > 0,
        bytes[0] == first,
        old(data)@ == bytes.skip(1),
    ensures
        match numbers {
            Ok(n) => group_numbers(bytes) == Some(seq![n@[0] as int, n@[1] as int, n@[2] as int]),
            Err(e) => e == InternalError::Eof && group_numbers(bytes) is None,
        },
        final(data)@ == bytes.skip(bytes_read(bytes) as int),
{
    let mut result: [i32; COUNT] = [0, 0, 0];
    let mut tags: u8 = first & 0x3F;
    let mut i: usize = 0;
    proof {
        assert(first & 0x3F & 3 == first % 4) by (bit_vector);
        assert(((first & 0x3F) >> 2) & 3 == (first / 4) % 4) by (bit_vector);
        assert((((first & 0x3F) >> 2) >> 2) & 3 == (first / 16) % 4) by (bit_vector);
        wide_lengths(first);
    }
    while i < COUNT
        invariant
            i <= COUNT,
            bytes.len() > 0,
            first == bytes[0],
            first / 64 == 3,
            i == 0 ==> tags & 3 == first % 4 && (tags >> 2) & 3 == (first / 4) % 4 && ((tags >> 2)
                >> 2) & 3 == (first / 16) % 4,
            i == 1 ==> tags & 3 == (first / 4) % 4 && (tags >> 2) & 3 == (first / 16) % 4,
            i == 2 ==> tags & 3 == (first / 16) % 4,
            bytes.len() >= wide_length(first, i as nat),
            data@ == bytes.skip(wide_length(first, i as nat) as int),
            forall|j: nat| j < i ==> result@[j as int] == #[trigger] wide_number(bytes, j),
        decreases COUNT - i,
    {
        let tag: u8 = tags & 3;
        let ghost start = wide_length(first, i as nat);
        proof {
            wide_lengths(first);
            assert(tag + 1 == wide_width(first, i as nat));
            assert(wide_length(first, i as nat + 1) == start + tag + 1);
            if bytes.len() >= start + tag + 1 {
                assert(bytes.skip(start as int).take(tag + 1) =~= bytes.subrange(
                    start as int,
                    start + tag + 1,
                ));
                assert(bytes.skip(start as int).skip(tag + 1) =~= bytes.skip(start + tag + 1));
            }
        }
        tags = tags >> 2;
        match read_wide(data, tag) {
            Ok(value) => {
                result[i] = value;
                assert(value == wide_number(bytes, i as nat));
            },
            Err(e) => {
                return Err(e);
            },
        }
        i += 1;
    }
    proof {
        wide_lengths(first);
        assert(result@[0] == wide_number(bytes, 0));
        assert(result@[1] == wide_number(bytes, 1));
        assert(result@[2] == wide_number(bytes, 2));
    }
    Ok(result)
}

/// Decodes one group of the `TAG2_3SVARIABLE` encoding (encoding value 10).
///
/// - tag 0: 2-2-2 bits per number, one byte in all
/// - tag 1: 5-5-4 bits per number, two bytes in all
/// - tag 2: 8-7-7 bits per number, three bytes in all
/// - tag 3: 8, 16, 24 or 32 bits per number, as the rest of the first byte selects
pub fn tagged_32_variable(data: &mut Reader) -> (numbers: InternalResult<[i32; COUNT]>)
    ensures
        match numbers {
            Ok(n) => group_numbers(old(data)@) == Some(seq![n@[0] as int, n@[1] as int, n@[2] as int]),
            Err(e) => e == InternalError::Eof && group_numbers(old(data)@) is None,
        },
        final(data)@ == old(data)@.skip(bytes_read(old(data)@) as int),
{
    let ghost bytes = data@;
    proof {
        lemma2_to64();
        assert(bytes.skip(0) =~= bytes);
    }
    let byte: u8 = match read_u8_or_eof(data) {
        Ok(byte) => byte,
        Err(e) => return Err(e),
    };
    assert((byte & 0xC0) >> 6 == byte / 64) by (bit_vector);
    assert(byte / 64 < 4) by (bit_vector);
    match (byte & 0xC0) >> 6 {
        // 2 bits per field: ss11 2233
        0 => {
            assert((byte >> 4) & 0x03 == (byte / 16) % 4) by (bit_vector);
            assert((byte >> 2) & 0x03 == (byte / 4) % 4) by (bit_vector);
            assert(byte & 0x03 == byte % 4) by (bit_vector);
            Ok(
                [
                    sign_extend::<2>(((byte >> 4) & 0x03) as u32),
                    sign_extend::<2>(((byte >> 2) & 0x03) as u32),
                    sign_extend::<2>((byte & 0x03) as u32),
                ],
            )
        },
        // 5-5-4 bits per field: ss11 1112 2222 3333
        1 => {
            let byte2: u8 = match read_u8_or_eof(data) {
                Ok(byte) => byte,
                Err(e) => return Err(e),
            };
            let f0: u32 = (((byte & 0x3E) >> 1) as u32) & 0x1F;
            let f1: u32 = (((byte & 0x01) as u32) << 4 | ((byte2 & 0xF0) as u32) >> 4) & 0x1F;
            let f2: u32 = (byte2 & 0x0F) as u32;
            assert((((byte & 0x3E) >> 1) as u32) & 0x1F == ((256 * byte as u32 + byte2 as u32)
                / 512) % 32) by (bit_vector);
            assert((((byte & 0x01) as u32) << 4 | ((byte2 & 0xF0) as u32) >> 4) & 0x1F == ((256
                * byte as u32 + byte2 as u32) / 16) % 32) by (bit_vector);
            assert((byte2 & 0x0F) as u32 == (256 * byte as u32 + byte2 as u32) % 16) by (bit_vector);
            assert(data@ =~= bytes.skip(2));
            Ok([sign_extend::<5>(f0), sign_extend::<5>(f1), sign_extend::<4>(f2)])
        },
        // 8-7-7 bits per field: ss11 1111 1122 2222 2333 3333
        2 => {
            let byte2: u8 = match read_u8_or_eof(data) {
                Ok(byte) => byte,
                Err(e) => return Err(e),
            };
            assert(data@ =~= bytes.skip(2));
            let byte3: u8 = match read_u8_or_eof(data) {
                Ok(byte) => byte,
                Err(e) => return Err(e),
            };
            let f0: u32 = ((byte & 0x3F) as u32) << 2 | ((byte2 & 0xC0) as u32) >> 6;
            let f1: u32 = ((byte2 & 0x3F) as u32) << 1 | ((byte3 & 0x80) as u32) >> 7;
            let f2: u32 = (byte3 & 0x7F) as u32;
            assert(((byte & 0x3F) as u32) << 2 | ((byte2 & 0xC0) as u32) >> 6 == ((65536
                * byte as u32 + 256 * byte2 as u32 + byte3 as u32) / 16384) % 256) by (bit_vector);
            assert(((byte2 & 0x3F) as u32) << 1 | ((byte3 & 0x80) as u32) >> 7 == ((65536
                * byte as u32 + 256 * byte2 as u32 + byte3 as u32) / 128) % 128) by (bit_vector);
            assert((byte3 & 0x7F) as u32 == (65536 * byte as u32 + 256 * byte2 as u32
                + byte3 as u32) % 128) by (bit_vector);
            assert(data@ =~= bytes.skip(3));
            Ok([sign_extend::<8>(f0), sign_extend::<7>(f1), sign_extend::<7>(f2)])
        },
        // Variable 8/16/24/32 bits per field
        _ => read_wide_group(data, byte, Ghost(bytes)),
    }
}

/// Whether `value` is a number in two's complement of that many bits.
pub open spec fn fits(value: int, bits: nat) -> bool {
    -(pow2(bits) as int) <= 2 * value < pow2(bits)
}

/// How many bits the number `i` of a group takes that starts with `first`.
pub open spec fn number_bits(first: u8, i: nat) -> nat {
    match first / 64 {
        0 => 2,
        1 => if i < 2 {
            5
        } else {
            4
        },
        2 => if i < 1 {
            8
        } else {
            7
        },
        _ => 8 * wide_width(first, i),
    }
}

/// A group is read from its own bytes alone, whatever follows them.
pub proof fn group_ignores_what_follows(bytes: Seq<u8>, tail: Seq<u8>)
    requires
        group_numbers(bytes) is Some,
    ensures
        group_numbers(bytes + tail) == group_numbers(bytes),
        bytes_read(bytes + tail) == bytes_read(bytes),
        bytes_read(bytes) == group_length(bytes[0]),
{
    let first = bytes[0];
    let longer = bytes + tail;
    wide_lengths(first);
    assert(longer[0] == first);
    if first / 64 == 3 {
        assert forall|i: nat| i < 3 implies #[trigger] wide_number(longer, i) == wide_number(
            bytes,
            i,
        ) by {
            let start = wide_length(first, i) as int;
            let end = wide_length(first, i + 1) as int;
            assert(longer.subrange(start, end) =~= bytes.subrange(start, end));
        }
        assert(wide_number(longer, 0) == wide_number(bytes, 0));
        assert(wide_number(longer, 1) == wide_number(bytes, 1));
        assert(wide_number(longer, 2) == wide_number(bytes, 2));
    } else {
        assert(first / 64 < 4) by (bit_vector);
    }
}

/// A group holds three numbers, and each fits the bits that it was written in.
pub proof fn numbers_fit_their_bits(bytes: Seq<u8>)
    requires
        group_numbers(bytes) is Some,
    ensures
        group_numbers(bytes).unwrap().len() == COUNT,
        forall|i: nat|
            i < COUNT ==> fits(
                #[trigger] group_numbers(bytes).unwrap()[i as int],
                number_bits(bytes[0], i),
            ),
{
    let first = bytes[0];
    lemma2_to64();
    assert(first / 64 < 4) by (bit_vector);
    wide_lengths(first);
    if first / 64 == 3 {
        assert forall|i: nat| i < 3 implies fits(
            #[trigger] wide_number(bytes, i),
            number_bits(first, i),
        ) by {
            let width = wide_width(first, i);
            let own = bytes.subrange(
                wide_length(first, i) as int,
                wide_length(first, i + 1) as int,
            );
            little_endian_bound(own, width);
        }
        assert(fits(wide_number(bytes, 0), number_bits(first, 0)));
        assert(fits(wide_number(bytes, 1), number_bits(first, 1)));
        assert(fits(wide_number(bytes, 2), number_bits(first, 2)));
    }
}

} // verus!
